use rustplotlib::export::{
    clamp_figure_size, crop_to_content, encode_png, render_eps, render_pdf, render_pdf_with_png, rgb_bytes,
    savefig_format, simple_base64_encode, Raster, SaveFormat, SavePathError,
};
use rustplotlib::text::PremulColor;

fn px(r: u8, g: u8, b: u8, a: u8) -> PremulColor {
    PremulColor::from_rgba(r, g, b, a).unwrap()
}

fn raster(w: u32, h: u32, p: Vec<PremulColor>) -> Raster {
    Raster::new(w, h, p).unwrap()
}

#[test]
fn raster_size_must_match() {
    assert!(Raster::new(2, 2, vec![px(0, 0, 0, 0); 3]).is_none());
    assert!(Raster::new(2, 2, vec![px(0, 0, 0, 0); 4]).is_some());
}

#[test]
fn base64_known_values() {
    assert_eq!(simple_base64_encode(b"Man"), "TWFu");
    assert_eq!(simple_base64_encode(b"Ma"), "TWE=");
    assert_eq!(simple_base64_encode(b"M"), "TQ==");
    assert_eq!(simple_base64_encode(&[0xfb, 0xff, 0xbf]), "+/+/");
    assert_eq!(simple_base64_encode(b""), "");
    assert_eq!(simple_base64_encode(b"hello world").len(), 16);
}

#[test]
fn rgb_unpremultiplies_and_whitens_transparent() {
    let img = raster(3, 1, vec![px(128, 0, 64, 128), px(0, 0, 0, 0), px(10, 20, 30, 255)]);
    assert_eq!(rgb_bytes(&img), vec![255, 0, 127, 255, 255, 255, 10, 20, 30]);
}

#[test]
fn pdf_exact_small_image() {
    let img = raster(2, 1, vec![px(255, 0, 0, 255), px(0, 0, 255, 255)]);
    let pdf = render_pdf(&img);
    assert_eq!(pdf.len(), 644);
    assert!(pdf.starts_with(b"%PDF-1.4\n1 0 obj\n"));
    let text = String::from_utf8_lossy(&pdf).to_string();
    assert!(text.contains("/MediaBox [0 0 2 1]"));
    assert!(text.contains("/Width 2 /Height 1 /ColorSpace /DeviceRGB /BitsPerComponent 8 /Length 6 >>\nstream\n"));
    assert!(text.ends_with("startxref\n461\n%%EOF\n"));
    // every cross-reference offset points at its object
    for (k, off) in [(1usize, 9usize), (2, 58), (3, 115), (4, 241), (5, 389)] {
        let head = format!("{} 0 obj", k);
        assert_eq!(&pdf[off..off + head.len()], head.as_bytes());
        assert!(text.contains(&format!("{:010} 00000 n \n", off)));
    }
    assert_eq!(&pdf[461..466], b"xref\n");
}

#[test]
fn pdf_fallback_embeds_png_data() {
    let a = render_pdf_with_png(10, 20, &[1, 2, 3]);
    let b = render_pdf_with_png(10, 20, &[]);
    assert_ne!(a, b);
    let text = String::from_utf8_lossy(&a).to_string();
    assert!(text.contains("/Width 10 /Height 20 /ColorSpace /DeviceRGB /BitsPerComponent 8 /Length 3 >>\nstream\n"));
    assert!(text.contains("/MediaBox [0 0 10 20]"));
    let at = a.windows(8).position(|w| w == b"stream\n\x01").unwrap();
    assert_eq!(&a[at + 7..at + 10], &[1, 2, 3]);
}

#[test]
fn png_encoding_of_raster() {
    let img = raster(2, 1, vec![px(255, 0, 0, 255), px(0, 0, 0, 0)]);
    let png = encode_png(&img).unwrap();
    assert_eq!(&png[..8], &[0x89, b'P', b'N', b'G', 0x0d, 0x0a, 0x1a, 0x0a]);
    // the IHDR chunk holds the size
    assert_eq!(&png[16..24], &[0, 0, 0, 2, 0, 0, 0, 1]);
    let empty = Raster::new(0, 0, vec![]).unwrap();
    assert_eq!(encode_png(&empty), None);
}

#[test]
fn savefig_paths() {
    assert_eq!(savefig_format("plot.png"), Ok(SaveFormat::Png));
    assert_eq!(savefig_format("out/Plot.SVG"), Ok(SaveFormat::Svg));
    assert_eq!(savefig_format("a.Pdf"), Ok(SaveFormat::Pdf));
    assert_eq!(savefig_format("fig.eps"), Ok(SaveFormat::Eps));
    assert_eq!(savefig_format("fig.jpg"), Err(SavePathError::UnsupportedExtension));
    assert_eq!(savefig_format("png"), Err(SavePathError::UnsupportedExtension));
    assert_eq!(savefig_format("../secret.png"), Err(SavePathError::PathTraversal));
    assert_eq!(savefig_format("a..b.txt"), Err(SavePathError::UnsupportedExtension));
    let long = format!("{}.png", "a".repeat(4092));
    assert_eq!(savefig_format(&long), Ok(SaveFormat::Png));
    let too_long = format!("{}.png", "a".repeat(4093));
    assert_eq!(savefig_format(&too_long), Err(SavePathError::PathTooLong));
    // the limit counts bytes, not characters
    let wide = format!("{}.png", "\u{e9}".repeat(2047));
    assert_eq!(savefig_format(&wide), Err(SavePathError::PathTooLong));
}

#[test]
fn eps_exact_small_image() {
    let img = raster(1, 1, vec![px(0, 128, 255, 255)]);
    let eps = String::from_utf8(render_eps(&img)).unwrap();
    let expected = "%!PS-Adobe-3.0 EPSF-3.0\n%%BoundingBox: 0 0 1 1\n%%EndComments\n1 1 scale\n1 1 8 [1 0 0 -1 0 1]\n{currentfile 3 1 mul string readhexstring pop} false 3 colorimage\n0080FF\nshowpage\n%%EOF\n";
    assert_eq!(eps, expected);
}

#[test]
fn eps_lines_hold_twelve_pixels() {
    let img = raster(13, 1, vec![px(0, 0, 0, 255); 13]);
    let eps = String::from_utf8(render_eps(&img)).unwrap();
    let lines: Vec<&str> = eps.lines().filter(|l| l.chars().all(|c| c == '0')).collect();
    assert_eq!(lines.len(), 2);
    assert_eq!(lines[0].len(), 72);
    assert_eq!(lines[1].len(), 6);
}

#[test]
fn crop_finds_content() {
    let bg = px(255, 255, 255, 255);
    let ink = px(0, 0, 0, 255);
    let mut p = vec![bg; 25];
    p[6] = ink; // (1, 1)
    p[18] = ink; // (3, 3)
    let img = raster(5, 5, p);
    let c = crop_to_content(&img, 255, 255, 255, false, 0);
    assert_eq!((c.width(), c.height()), (3, 3));
    assert_eq!(c.pixels()[0], ink);
    assert_eq!(c.pixels()[8], ink);
    let padded = crop_to_content(&img, 255, 255, 255, false, 1);
    assert_eq!((padded.width(), padded.height()), (5, 5));
    let big_pad = crop_to_content(&img, 255, 255, 255, false, 100);
    assert_eq!((big_pad.width(), big_pad.height()), (5, 5));
}

#[test]
fn crop_keeps_image_without_enough_content() {
    let img = raster(4, 4, vec![px(0, 0, 0, 0); 16]);
    let c = crop_to_content(&img, 0, 0, 0, true, 2);
    assert_eq!((c.width(), c.height()), (4, 4));
    assert_eq!(c.pixels().len(), 16);
}

#[test]
fn crop_on_transparent_background() {
    let mut p = vec![px(0, 0, 0, 0); 16];
    p[5] = px(10, 10, 10, 20);
    p[10] = px(1, 1, 1, 1);
    let img = raster(4, 4, p);
    let c = crop_to_content(&img, 0, 0, 0, true, 0);
    assert_eq!((c.width(), c.height()), (2, 2));
}

#[test]
fn figure_size_clamped() {
    assert_eq!(clamp_figure_size(640, 480, 100), (640, 480, 100));
    assert_eq!(clamp_figure_size(0, 99999, 0), (1, 32768, 1));
    assert_eq!(clamp_figure_size(5, 5, 5000), (5, 5, 1200));
}
