use rustplotlib::numtext::{decimal_len, push_decimal, push_hex2, push_zero_padded};
use rustplotlib::strs::{chars_of, string_of_range};
use rustplotlib::text::{alpha_blend_premul, check_font_data, FontError, PremulColor};

fn px(r: u8, g: u8, b: u8, a: u8) -> PremulColor {
    PremulColor::from_rgba(r, g, b, a).unwrap()
}

fn channels(p: PremulColor) -> (u8, u8, u8, u8) {
    (p.red(), p.green(), p.blue(), p.alpha())
}

#[test]
fn premultiplied_construction() {
    assert!(PremulColor::from_rgba(10, 0, 0, 5).is_none());
    assert_eq!(channels(px(1, 2, 3, 4)), (1, 2, 3, 4));
    assert_eq!(channels(PremulColor::transparent()), (0, 0, 0, 0));
}

#[test]
fn blend_source_over() {
    assert_eq!(channels(alpha_blend_premul(px(0, 0, 0, 0), px(10, 20, 30, 40))), (10, 20, 30, 40));
    assert_eq!(channels(alpha_blend_premul(px(5, 6, 7, 255), px(10, 20, 30, 40))), (5, 6, 7, 255));
    assert_eq!(channels(alpha_blend_premul(px(64, 0, 0, 128), px(0, 0, 200, 255))), (64, 0, 99, 255));
}

#[test]
fn number_text() {
    let mut s = String::new();
    push_decimal(&mut s, 0);
    s.push(' ');
    push_decimal(&mut s, 1234567890123);
    s.push(' ');
    push_zero_padded(&mut s, 461, 10);
    s.push(' ');
    push_zero_padded(&mut s, 12345, 3);
    s.push(' ');
    push_hex2(&mut s, 0x0a);
    push_hex2(&mut s, 0xff);
    assert_eq!(s, "0 1234567890123 0000000461 12345 0AFF");
    assert_eq!(decimal_len(u64::MAX), 20);
    assert_eq!(decimal_len(9), 1);
}

#[test]
fn string_helpers() {
    let v = chars_of("héllo");
    assert_eq!(v, vec!['h', 'é', 'l', 'l', 'o']);
    assert_eq!(string_of_range(&v, 1, 3), "él");
}

#[test]
fn font_data_must_parse() {
    assert_eq!(check_font_data(&[]), Err(FontError::InvalidFont));
    assert_eq!(check_font_data(b"definitely not a font file"), Err(FontError::InvalidFont));
}
