use rustplotlib::colors::{
    hex_color, named_color, named_color_lowercase, parse_color_str, parse_color_text, resolve_color,
    resolve_color_text, Color, ColorError,
};

fn rgba(r: u8, g: u8, b: u8, a: u8) -> Color {
    Color::new(r, g, b, a)
}

#[test]
fn color_new_keeps_channels() {
    let c = Color::new(1, 2, 3, 4);
    assert_eq!((c.r, c.g, c.b, c.a), (1, 2, 3, 4));
}

#[test]
fn named_colors_and_shorthands() {
    assert_eq!(named_color("red"), Some(rgba(255, 0, 0, 255)));
    assert_eq!(named_color("r"), Some(rgba(255, 0, 0, 255)));
    assert_eq!(named_color("g"), Some(rgba(0, 128, 0, 255)));
    assert_eq!(named_color("k"), Some(rgba(0, 0, 0, 255)));
    assert_eq!(named_color("orange"), Some(rgba(255, 165, 0, 255)));
    assert_eq!(named_color("cornflowerblue"), Some(rgba(100, 149, 237, 255)));
    assert_eq!(named_color("grey"), named_color("gray"));
    assert_eq!(named_color("yellowgreen"), Some(rgba(154, 205, 50, 255)));
    assert_eq!(named_color("notacolor"), None);
}

#[test]
fn named_colors_ignore_case() {
    assert_eq!(named_color("RED"), Some(rgba(255, 0, 0, 255)));
    assert_eq!(named_color("DarkSlateGrey"), Some(rgba(47, 79, 79, 255)));
    // the lowercase-only lookup does not fold case itself
    assert_eq!(named_color_lowercase("RED"), None);
    assert_eq!(named_color_lowercase("navy"), Some(rgba(0, 0, 128, 255)));
}

#[test]
fn hex_colors() {
    assert_eq!(hex_color("f00"), Some(rgba(255, 0, 0, 255)));
    assert_eq!(hex_color("abc"), Some(rgba(0xaa, 0xbb, 0xcc, 255)));
    assert_eq!(hex_color("1a2B3c"), Some(rgba(0x1a, 0x2b, 0x3c, 255)));
    assert_eq!(hex_color("11223344"), Some(rgba(0x11, 0x22, 0x33, 0x44)));
    assert_eq!(hex_color("12345"), None);
    assert_eq!(hex_color("ggg"), None);
    assert_eq!(hex_color(""), None);
}

#[test]
fn short_hex_equals_doubled_digits() {
    assert_eq!(hex_color("a7c"), hex_color("aa77cc"));
    assert_eq!(hex_color("123456"), hex_color("123456ff"));
}

#[test]
fn parse_color_str_names_hex_and_fallback() {
    assert_eq!(parse_color_str("  Blue \n"), rgba(0, 0, 255, 255));
    assert_eq!(parse_color_str("#00ff0080"), rgba(0, 255, 0, 128));
    assert_eq!(parse_color_str("#zzz"), rgba(0, 0, 0, 255));
    assert_eq!(parse_color_str("nonsense"), rgba(0, 0, 0, 255));
    assert_eq!(parse_color_str(""), rgba(0, 0, 0, 255));
}

#[test]
fn resolve_color_prefers_names() {
    assert_eq!(resolve_color("teal", "Teal"), rgba(0, 128, 128, 255));
    assert_eq!(resolve_color("#0000ff", "#0000FF"), rgba(0, 0, 255, 255));
    assert_eq!(resolve_color("x", "x"), rgba(0, 0, 0, 255));
}

#[test]
fn parse_color_text_errors() {
    assert_eq!(parse_color_text(" #abc "), Ok(rgba(0xaa, 0xbb, 0xcc, 255)));
    assert_eq!(parse_color_text("Lime"), Ok(rgba(0, 255, 0, 255)));
    assert_eq!(parse_color_text(" #12 "), Err(ColorError::InvalidHex("#12".to_string())));
    assert_eq!(parse_color_text("chartreusey"), Err(ColorError::UnknownName("chartreusey".to_string())));
    assert_eq!(resolve_color_text("red", "Red"), Ok(rgba(255, 0, 0, 255)));
}

#[test]
fn strict_and_lenient_agree_on_accepted_names() {
    let strict = parse_color_text("Salmon").unwrap();
    assert_eq!(strict, parse_color_str("Salmon"));
}

#[test]
fn color_text_trims_unicode_white_space() {
    assert_eq!(parse_color_text("\u{3000} red\t\n"), Ok(rgba(255, 0, 0, 255)));
    assert_eq!(parse_color_str("\u{a0}#00ff00\u{2029}"), rgba(0, 255, 0, 255));
    assert_eq!(parse_color_text(" \u{200b}red"), Err(ColorError::UnknownName("\u{200b}red".to_string())));
}
