use rustplotlib::colors::Color;
use rustplotlib::svg_renderer::{color_to_svg, escape_text, SvgRenderer};

const HEAD: &str = "<?xml version=\"1.0\" encoding=\"UTF-8\"?>\n<svg xmlns=\"http://www.w3.org/2000/svg\" width=\"640\" height=\"480\" viewBox=\"0 0 640 480\">\n<rect width=\"100%\" height=\"100%\" fill=\"white\"/>\n<defs>\n";

#[test]
fn empty_document() {
    let r = SvgRenderer::new(640, 480);
    assert_eq!(r.width, 640);
    assert_eq!(r.height, 480);
    assert_eq!((r.width(), r.height()), (640, 480));
    assert_eq!(r.to_svg("white"), format!("{}</defs>\n</svg>", HEAD));
}

#[test]
fn groups_and_clip_paths_are_placed() {
    let mut r = SvgRenderer::new(640, 480);
    r.begin_group(Some("c1"));
    r.add_element("<line/>".to_string());
    r.add_element("<clipPath id=\"c1\"><rect/></clipPath>".to_string());
    r.end_group();
    r.begin_group(None);
    r.end_group();
    let expected = format!(
        "{}<clipPath id=\"c1\"><rect/></clipPath>\n</defs>\n<g clip-path=\"url(#c1)\">\n<line/>\n</g>\n<g>\n</g>\n</svg>",
        HEAD
    );
    assert_eq!(r.to_svg("white"), expected);
}

#[test]
fn escaping() {
    assert_eq!(escape_text("a<b & \"c\">"), "a&lt;b &amp; &quot;c&quot;&gt;");
    assert_eq!(escape_text("plain"), "plain");
}

#[test]
fn svg_colors() {
    assert_eq!(color_to_svg(&Color::new(0, 128, 255, 10)), "rgb(0,128,255)");
}

#[test]
fn document_is_its_lines_joined() {
    let mut r = SvgRenderer::new(3, 4);
    r.add_element("<a/>".to_string());
    r.add_element("<clipPath id=\"x\"/>".to_string());
    r.add_element("<b/>".to_string());
    let lines = [
        "<?xml version=\"1.0\" encoding=\"UTF-8\"?>",
        "<svg xmlns=\"http://www.w3.org/2000/svg\" width=\"3\" height=\"4\" viewBox=\"0 0 3 4\">",
        "<rect width=\"100%\" height=\"100%\" fill=\"none\"/>",
        "<defs>",
        "<clipPath id=\"x\"/>",
        "</defs>",
        "<a/>",
        "<b/>",
        "</svg>",
    ];
    assert_eq!(r.to_svg("none"), lines.join("\n"));
}
