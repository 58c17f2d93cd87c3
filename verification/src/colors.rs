use vstd::prelude::*;
use crate::strs::{all_ascii, chars_of, law_lowercase_ascii_idempotent, lowercase, str_eq, to_lowercase, trim, trimmed};

verus! {

broadcast use vstd::string::group_string_axioms;

/// RGBA color with `u8` components.
#[derive(Debug, Clone, Copy, PartialEq, Eq, Structural)]
pub struct Color {
    pub r: u8,
    pub g: u8,
    pub b: u8,
    pub a: u8,
}

impl Color {
    /// Create a new color from `u8` RGBA components.
    pub fn new(r: u8, g: u8, b: u8, a: u8) -> (c: Self)
        ensures
            c == (Color { r, g, b, a }),
    {
        Color { r, g, b, a }
    }
}

/// A fully opaque color.
pub open spec fn opaque(r: u8, g: u8, b: u8) -> Color {
    Color { r, g, b, a: 255 }
}

/// Opaque black, the fallback of `parse_color_str`.
pub open spec fn black() -> Color {
    opaque(0, 0, 0)
}

/// The named colors (CSS/X11 names and the one-letter shorthands), looked up
/// by an already lowercased name.
pub open spec fn spec_named_color(name: Seq<char>) -> Option<Color> {
    if name == "red"@ || name == "r"@ {
        Some(opaque(255, 0, 0))
    } else if name == "green"@ || name == "g"@ {
        Some(opaque(0, 128, 0))
    } else if name == "blue"@ || name == "b"@ {
        Some(opaque(0, 0, 255))
    } else if name == "cyan"@ || name == "c"@ {
        Some(opaque(0, 255, 255))
    } else if name == "magenta"@ || name == "m"@ {
        Some(opaque(255, 0, 255))
    } else if name == "yellow"@ || name == "y"@ {
        Some(opaque(255, 255, 0))
    } else if name == "black"@ || name == "k"@ {
        Some(opaque(0, 0, 0))
    } else if name == "white"@ || name == "w"@ {
        Some(opaque(255, 255, 255))
    } else if name == "orange"@ {
        Some(opaque(255, 165, 0))
    } else if name == "purple"@ {
        Some(opaque(128, 0, 128))
    } else if name == "brown"@ {
        Some(opaque(165, 42, 42))
    } else if name == "pink"@ {
        Some(opaque(255, 192, 203))
    } else if name == "gray"@ || name == "grey"@ {
        Some(opaque(128, 128, 128))
    } else if name == "olive"@ {
        Some(opaque(128, 128, 0))
    } else if name == "navy"@ {
        Some(opaque(0, 0, 128))
    } else if name == "teal"@ {
        Some(opaque(0, 128, 128))
    } else if name == "lime"@ {
        Some(opaque(0, 255, 0))
    } else if name == "aliceblue"@ {
        Some(opaque(240, 248, 255))
    } else if name == "antiquewhite"@ {
        Some(opaque(250, 235, 215))
    } else if name == "aqua"@ {
        Some(opaque(0, 255, 255))
    } else if name == "aquamarine"@ {
        Some(opaque(127, 255, 212))
    } else if name == "azure"@ {
        Some(opaque(240, 255, 255))
    } else if name == "beige"@ {
        Some(opaque(245, 245, 220))
    } else if name == "bisque"@ {
        Some(opaque(255, 228, 196))
    } else if name == "blanchedalmond"@ {
        Some(opaque(255, 235, 205))
    } else if name == "blueviolet"@ {
        Some(opaque(138, 43, 226))
    } else if name == "burlywood"@ {
        Some(opaque(222, 184, 135))
    } else if name == "cadetblue"@ {
        Some(opaque(95, 158, 160))
    } else if name == "chartreuse"@ {
        Some(opaque(127, 255, 0))
    } else if name == "chocolate"@ {
        Some(opaque(210, 105, 30))
    } else if name == "coral"@ {
        Some(opaque(255, 127, 80))
    } else if name == "cornflowerblue"@ {
        Some(opaque(100, 149, 237))
    } else if name == "cornsilk"@ {
        Some(opaque(255, 248, 220))
    } else if name == "crimson"@ {
        Some(opaque(220, 20, 60))
    } else if name == "darkblue"@ {
        Some(opaque(0, 0, 139))
    } else if name == "darkcyan"@ {
        Some(opaque(0, 139, 139))
    } else if name == "darkgoldenrod"@ {
        Some(opaque(184, 134, 11))
    } else if name == "darkgray"@ || name == "darkgrey"@ {
        Some(opaque(169, 169, 169))
    } else if name == "darkgreen"@ {
        Some(opaque(0, 100, 0))
    } else if name == "darkkhaki"@ {
        Some(opaque(189, 183, 107))
    } else if name == "darkmagenta"@ {
        Some(opaque(139, 0, 139))
    } else if name == "darkolivegreen"@ {
        Some(opaque(85, 107, 47))
    } else if name == "darkorange"@ {
        Some(opaque(255, 140, 0))
    } else if name == "darkorchid"@ {
        Some(opaque(153, 50, 204))
    } else if name == "darkred"@ {
        Some(opaque(139, 0, 0))
    } else if name == "darksalmon"@ {
        Some(opaque(233, 150, 122))
    } else if name == "darkseagreen"@ {
        Some(opaque(143, 188, 143))
    } else if name == "darkslateblue"@ {
        Some(opaque(72, 61, 139))
    } else if name == "darkslategray"@ || name == "darkslategrey"@ {
        Some(opaque(47, 79, 79))
    } else if name == "darkturquoise"@ {
        Some(opaque(0, 206, 209))
    } else if name == "darkviolet"@ {
        Some(opaque(148, 0, 211))
    } else if name == "deeppink"@ {
        Some(opaque(255, 20, 147))
    } else if name == "deepskyblue"@ {
        Some(opaque(0, 191, 255))
    } else if name == "dimgray"@ || name == "dimgrey"@ {
        Some(opaque(105, 105, 105))
    } else if name == "dodgerblue"@ {
        Some(opaque(30, 144, 255))
    } else if name == "firebrick"@ {
        Some(opaque(178, 34, 34))
    } else if name == "floralwhite"@ {
        Some(opaque(255, 250, 240))
    } else if name == "forestgreen"@ {
        Some(opaque(34, 139, 34))
    } else if name == "fuchsia"@ {
        Some(opaque(255, 0, 255))
    } else if name == "gainsboro"@ {
        Some(opaque(220, 220, 220))
    } else if name == "ghostwhite"@ {
        Some(opaque(248, 248, 255))
    } else if name == "gold"@ {
        Some(opaque(255, 215, 0))
    } else if name == "goldenrod"@ {
        Some(opaque(218, 165, 32))
    } else if name == "greenyellow"@ {
        Some(opaque(173, 255, 47))
    } else if name == "honeydew"@ {
        Some(opaque(240, 255, 240))
    } else if name == "hotpink"@ {
        Some(opaque(255, 105, 180))
    } else if name == "indianred"@ {
        Some(opaque(205, 92, 92))
    } else if name == "indigo"@ {
        Some(opaque(75, 0, 130))
    } else if name == "ivory"@ {
        Some(opaque(255, 255, 240))
    } else if name == "khaki"@ {
        Some(opaque(240, 230, 140))
    } else if name == "lavender"@ {
        Some(opaque(230, 230, 250))
    } else if name == "lavenderblush"@ {
        Some(opaque(255, 240, 245))
    } else if name == "lawngreen"@ {
        Some(opaque(124, 252, 0))
    } else if name == "lemonchiffon"@ {
        Some(opaque(255, 250, 205))
    } else if name == "lightblue"@ {
        Some(opaque(173, 216, 230))
    } else if name == "lightcoral"@ {
        Some(opaque(240, 128, 128))
    } else if name == "lightcyan"@ {
        Some(opaque(224, 255, 255))
    } else if name == "lightgoldenrodyellow"@ {
        Some(opaque(250, 250, 210))
    } else if name == "lightgray"@ || name == "lightgrey"@ {
        Some(opaque(211, 211, 211))
    } else if name == "lightgreen"@ {
        Some(opaque(144, 238, 144))
    } else if name == "lightpink"@ {
        Some(opaque(255, 182, 193))
    } else if name == "lightsalmon"@ {
        Some(opaque(255, 160, 122))
    } else if name == "lightseagreen"@ {
        Some(opaque(32, 178, 170))
    } else if name == "lightskyblue"@ {
        Some(opaque(135, 206, 250))
    } else if name == "lightslategray"@ || name == "lightslategrey"@ {
        Some(opaque(119, 136, 153))
    } else if name == "lightsteelblue"@ {
        Some(opaque(176, 196, 222))
    } else if name == "lightyellow"@ {
        Some(opaque(255, 255, 224))
    } else if name == "limegreen"@ {
        Some(opaque(50, 205, 50))
    } else if name == "linen"@ {
        Some(opaque(250, 240, 230))
    } else if name == "maroon"@ {
        Some(opaque(128, 0, 0))
    } else if name == "mediumaquamarine"@ {
        Some(opaque(102, 205, 170))
    } else if name == "mediumblue"@ {
        Some(opaque(0, 0, 205))
    } else if name == "mediumorchid"@ {
        Some(opaque(186, 85, 211))
    } else if name == "mediumpurple"@ {
        Some(opaque(147, 112, 219))
    } else if name == "mediumseagreen"@ {
        Some(opaque(60, 179, 113))
    } else if name == "mediumslateblue"@ {
        Some(opaque(123, 104, 238))
    } else if name == "mediumspringgreen"@ {
        Some(opaque(0, 250, 154))
    } else if name == "mediumturquoise"@ {
        Some(opaque(72, 209, 204))
    } else if name == "mediumvioletred"@ {
        Some(opaque(199, 21, 133))
    } else if name == "midnightblue"@ {
        Some(opaque(25, 25, 112))
    } else if name == "mintcream"@ {
        Some(opaque(245, 255, 250))
    } else if name == "mistyrose"@ {
        Some(opaque(255, 228, 225))
    } else if name == "moccasin"@ {
        Some(opaque(255, 228, 181))
    } else if name == "navajowhite"@ {
        Some(opaque(255, 222, 173))
    } else if name == "oldlace"@ {
        Some(opaque(253, 245, 230))
    } else if name == "olivedrab"@ {
        Some(opaque(107, 142, 35))
    } else if name == "orangered"@ {
        Some(opaque(255, 69, 0))
    } else if name == "orchid"@ {
        Some(opaque(218, 112, 214))
    } else if name == "palegoldenrod"@ {
        Some(opaque(238, 232, 170))
    } else if name == "palegreen"@ {
        Some(opaque(152, 251, 152))
    } else if name == "paleturquoise"@ {
        Some(opaque(175, 238, 238))
    } else if name == "palevioletred"@ {
        Some(opaque(219, 112, 147))
    } else if name == "papayawhip"@ {
        Some(opaque(255, 239, 213))
    } else if name == "peachpuff"@ {
        Some(opaque(255, 218, 185))
    } else if name == "peru"@ {
        Some(opaque(205, 133, 63))
    } else if name == "plum"@ {
        Some(opaque(221, 160, 221))
    } else if name == "powderblue"@ {
        Some(opaque(176, 224, 230))
    } else if name == "rosybrown"@ {
        Some(opaque(188, 143, 143))
    } else if name == "royalblue"@ {
        Some(opaque(65, 105, 225))
    } else if name == "saddlebrown"@ {
        Some(opaque(139, 69, 19))
    } else if name == "salmon"@ {
        Some(opaque(250, 128, 114))
    } else if name == "sandybrown"@ {
        Some(opaque(244, 164, 96))
    } else if name == "seagreen"@ {
        Some(opaque(46, 139, 87))
    } else if name == "seashell"@ {
        Some(opaque(255, 245, 238))
    } else if name == "sienna"@ {
        Some(opaque(160, 82, 45))
    } else if name == "silver"@ {
        Some(opaque(192, 192, 192))
    } else if name == "skyblue"@ {
        Some(opaque(135, 206, 235))
    } else if name == "slateblue"@ {
        Some(opaque(106, 90, 205))
    } else if name == "slategray"@ || name == "slategrey"@ {
        Some(opaque(112, 128, 144))
    } else if name == "snow"@ {
        Some(opaque(255, 250, 250))
    } else if name == "springgreen"@ {
        Some(opaque(0, 255, 127))
    } else if name == "steelblue"@ {
        Some(opaque(70, 130, 180))
    } else if name == "tan"@ {
        Some(opaque(210, 180, 140))
    } else if name == "thistle"@ {
        Some(opaque(216, 191, 216))
    } else if name == "tomato"@ {
        Some(opaque(255, 99, 71))
    } else if name == "turquoise"@ {
        Some(opaque(64, 224, 208))
    } else if name == "violet"@ {
        Some(opaque(238, 130, 238))
    } else if name == "wheat"@ {
        Some(opaque(245, 222, 179))
    } else if name == "whitesmoke"@ {
        Some(opaque(245, 245, 245))
    } else if name == "yellowgreen"@ {
        Some(opaque(154, 205, 50))
    } else {
        None
    }
}

/// Look up a named color by its lowercase name.
pub fn named_color_lowercase(lower: &str) -> (c: Option<Color>)
    ensures
        c == spec_named_color(lower@),
{
    if str_eq(lower, "red") || str_eq(lower, "r") {
        Some(Color::new(255, 0, 0, 255))
    } else if str_eq(lower, "green") || str_eq(lower, "g") {
        Some(Color::new(0, 128, 0, 255))
    } else if str_eq(lower, "blue") || str_eq(lower, "b") {
        Some(Color::new(0, 0, 255, 255))
    } else if str_eq(lower, "cyan") || str_eq(lower, "c") {
        Some(Color::new(0, 255, 255, 255))
    } else if str_eq(lower, "magenta") || str_eq(lower, "m") {
        Some(Color::new(255, 0, 255, 255))
    } else if str_eq(lower, "yellow") || str_eq(lower, "y") {
        Some(Color::new(255, 255, 0, 255))
    } else if str_eq(lower, "black") || str_eq(lower, "k") {
        Some(Color::new(0, 0, 0, 255))
    } else if str_eq(lower, "white") || str_eq(lower, "w") {
        Some(Color::new(255, 255, 255, 255))
    } else if str_eq(lower, "orange") {
        Some(Color::new(255, 165, 0, 255))
    } else if str_eq(lower, "purple") {
        Some(Color::new(128, 0, 128, 255))
    } else if str_eq(lower, "brown") {
        Some(Color::new(165, 42, 42, 255))
    } else if str_eq(lower, "pink") {
        Some(Color::new(255, 192, 203, 255))
    } else if str_eq(lower, "gray") || str_eq(lower, "grey") {
        Some(Color::new(128, 128, 128, 255))
    } else if str_eq(lower, "olive") {
        Some(Color::new(128, 128, 0, 255))
    } else if str_eq(lower, "navy") {
        Some(Color::new(0, 0, 128, 255))
    } else if str_eq(lower, "teal") {
        Some(Color::new(0, 128, 128, 255))
    } else if str_eq(lower, "lime") {
        Some(Color::new(0, 255, 0, 255))
    } else if str_eq(lower, "aliceblue") {
        Some(Color::new(240, 248, 255, 255))
    } else if str_eq(lower, "antiquewhite") {
        Some(Color::new(250, 235, 215, 255))
    } else if str_eq(lower, "aqua") {
        Some(Color::new(0, 255, 255, 255))
    } else if str_eq(lower, "aquamarine") {
        Some(Color::new(127, 255, 212, 255))
    } else if str_eq(lower, "azure") {
        Some(Color::new(240, 255, 255, 255))
    } else if str_eq(lower, "beige") {
        Some(Color::new(245, 245, 220, 255))
    } else if str_eq(lower, "bisque") {
        Some(Color::new(255, 228, 196, 255))
    } else if str_eq(lower, "blanchedalmond") {
        Some(Color::new(255, 235, 205, 255))
    } else if str_eq(lower, "blueviolet") {
        Some(Color::new(138, 43, 226, 255))
    } else if str_eq(lower, "burlywood") {
        Some(Color::new(222, 184, 135, 255))
    } else if str_eq(lower, "cadetblue") {
        Some(Color::new(95, 158, 160, 255))
    } else if str_eq(lower, "chartreuse") {
        Some(Color::new(127, 255, 0, 255))
    } else if str_eq(lower, "chocolate") {
        Some(Color::new(210, 105, 30, 255))
    } else if str_eq(lower, "coral") {
        Some(Color::new(255, 127, 80, 255))
    } else if str_eq(lower, "cornflowerblue") {
        Some(Color::new(100, 149, 237, 255))
    } else if str_eq(lower, "cornsilk") {
        Some(Color::new(255, 248, 220, 255))
    } else if str_eq(lower, "crimson") {
        Some(Color::new(220, 20, 60, 255))
    } else if str_eq(lower, "darkblue") {
        Some(Color::new(0, 0, 139, 255))
    } else if str_eq(lower, "darkcyan") {
        Some(Color::new(0, 139, 139, 255))
    } else if str_eq(lower, "darkgoldenrod") {
        Some(Color::new(184, 134, 11, 255))
    } else if str_eq(lower, "darkgray") || str_eq(lower, "darkgrey") {
        Some(Color::new(169, 169, 169, 255))
    } else if str_eq(lower, "darkgreen") {
        Some(Color::new(0, 100, 0, 255))
    } else if str_eq(lower, "darkkhaki") {
        Some(Color::new(189, 183, 107, 255))
    } else if str_eq(lower, "darkmagenta") {
        Some(Color::new(139, 0, 139, 255))
    } else if str_eq(lower, "darkolivegreen") {
        Some(Color::new(85, 107, 47, 255))
    } else if str_eq(lower, "darkorange") {
        Some(Color::new(255, 140, 0, 255))
    } else if str_eq(lower, "darkorchid") {
        Some(Color::new(153, 50, 204, 255))
    } else if str_eq(lower, "darkred") {
        Some(Color::new(139, 0, 0, 255))
    } else if str_eq(lower, "darksalmon") {
        Some(Color::new(233, 150, 122, 255))
    } else if str_eq(lower, "darkseagreen") {
        Some(Color::new(143, 188, 143, 255))
    } else if str_eq(lower, "darkslateblue") {
        Some(Color::new(72, 61, 139, 255))
    } else if str_eq(lower, "darkslategray") || str_eq(lower, "darkslategrey") {
        Some(Color::new(47, 79, 79, 255))
    } else if str_eq(lower, "darkturquoise") {
        Some(Color::new(0, 206, 209, 255))
    } else if str_eq(lower, "darkviolet") {
        Some(Color::new(148, 0, 211, 255))
    } else if str_eq(lower, "deeppink") {
        Some(Color::new(255, 20, 147, 255))
    } else if str_eq(lower, "deepskyblue") {
        Some(Color::new(0, 191, 255, 255))
    } else if str_eq(lower, "dimgray") || str_eq(lower, "dimgrey") {
        Some(Color::new(105, 105, 105, 255))
    } else if str_eq(lower, "dodgerblue") {
        Some(Color::new(30, 144, 255, 255))
    } else if str_eq(lower, "firebrick") {
        Some(Color::new(178, 34, 34, 255))
    } else if str_eq(lower, "floralwhite") {
        Some(Color::new(255, 250, 240, 255))
    } else if str_eq(lower, "forestgreen") {
        Some(Color::new(34, 139, 34, 255))
    } else if str_eq(lower, "fuchsia") {
        Some(Color::new(255, 0, 255, 255))
    } else if str_eq(lower, "gainsboro") {
        Some(Color::new(220, 220, 220, 255))
    } else if str_eq(lower, "ghostwhite") {
        Some(Color::new(248, 248, 255, 255))
    } else if str_eq(lower, "gold") {
        Some(Color::new(255, 215, 0, 255))
    } else if str_eq(lower, "goldenrod") {
        Some(Color::new(218, 165, 32, 255))
    } else if str_eq(lower, "greenyellow") {
        Some(Color::new(173, 255, 47, 255))
    } else if str_eq(lower, "honeydew") {
        Some(Color::new(240, 255, 240, 255))
    } else if str_eq(lower, "hotpink") {
        Some(Color::new(255, 105, 180, 255))
    } else if str_eq(lower, "indianred") {
        Some(Color::new(205, 92, 92, 255))
    } else if str_eq(lower, "indigo") {
        Some(Color::new(75, 0, 130, 255))
    } else if str_eq(lower, "ivory") {
        Some(Color::new(255, 255, 240, 255))
    } else if str_eq(lower, "khaki") {
        Some(Color::new(240, 230, 140, 255))
    } else if str_eq(lower, "lavender") {
        Some(Color::new(230, 230, 250, 255))
    } else if str_eq(lower, "lavenderblush") {
        Some(Color::new(255, 240, 245, 255))
    } else if str_eq(lower, "lawngreen") {
        Some(Color::new(124, 252, 0, 255))
    } else if str_eq(lower, "lemonchiffon") {
        Some(Color::new(255, 250, 205, 255))
    } else if str_eq(lower, "lightblue") {
        Some(Color::new(173, 216, 230, 255))
    } else if str_eq(lower, "lightcoral") {
        Some(Color::new(240, 128, 128, 255))
    } else if str_eq(lower, "lightcyan") {
        Some(Color::new(224, 255, 255, 255))
    } else if str_eq(lower, "lightgoldenrodyellow") {
        Some(Color::new(250, 250, 210, 255))
    } else if str_eq(lower, "lightgray") || str_eq(lower, "lightgrey") {
        Some(Color::new(211, 211, 211, 255))
    } else if str_eq(lower, "lightgreen") {
        Some(Color::new(144, 238, 144, 255))
    } else if str_eq(lower, "lightpink") {
        Some(Color::new(255, 182, 193, 255))
    } else if str_eq(lower, "lightsalmon") {
        Some(Color::new(255, 160, 122, 255))
    } else if str_eq(lower, "lightseagreen") {
        Some(Color::new(32, 178, 170, 255))
    } else if str_eq(lower, "lightskyblue") {
        Some(Color::new(135, 206, 250, 255))
    } else if str_eq(lower, "lightslategray") || str_eq(lower, "lightslategrey") {
        Some(Color::new(119, 136, 153, 255))
    } else if str_eq(lower, "lightsteelblue") {
        Some(Color::new(176, 196, 222, 255))
    } else if str_eq(lower, "lightyellow") {
        Some(Color::new(255, 255, 224, 255))
    } else if str_eq(lower, "limegreen") {
        Some(Color::new(50, 205, 50, 255))
    } else if str_eq(lower, "linen") {
        Some(Color::new(250, 240, 230, 255))
    } else if str_eq(lower, "maroon") {
        Some(Color::new(128, 0, 0, 255))
    } else if str_eq(lower, "mediumaquamarine") {
        Some(Color::new(102, 205, 170, 255))
    } else if str_eq(lower, "mediumblue") {
        Some(Color::new(0, 0, 205, 255))
    } else if str_eq(lower, "mediumorchid") {
        Some(Color::new(186, 85, 211, 255))
    } else if str_eq(lower, "mediumpurple") {
        Some(Color::new(147, 112, 219, 255))
    } else if str_eq(lower, "mediumseagreen") {
        Some(Color::new(60, 179, 113, 255))
    } else if str_eq(lower, "mediumslateblue") {
        Some(Color::new(123, 104, 238, 255))
    } else if str_eq(lower, "mediumspringgreen") {
        Some(Color::new(0, 250, 154, 255))
    } else if str_eq(lower, "mediumturquoise") {
        Some(Color::new(72, 209, 204, 255))
    } else if str_eq(lower, "mediumvioletred") {
        Some(Color::new(199, 21, 133, 255))
    } else if str_eq(lower, "midnightblue") {
        Some(Color::new(25, 25, 112, 255))
    } else if str_eq(lower, "mintcream") {
        Some(Color::new(245, 255, 250, 255))
    } else if str_eq(lower, "mistyrose") {
        Some(Color::new(255, 228, 225, 255))
    } else if str_eq(lower, "moccasin") {
        Some(Color::new(255, 228, 181, 255))
    } else if str_eq(lower, "navajowhite") {
        Some(Color::new(255, 222, 173, 255))
    } else if str_eq(lower, "oldlace") {
        Some(Color::new(253, 245, 230, 255))
    } else if str_eq(lower, "olivedrab") {
        Some(Color::new(107, 142, 35, 255))
    } else if str_eq(lower, "orangered") {
        Some(Color::new(255, 69, 0, 255))
    } else if str_eq(lower, "orchid") {
        Some(Color::new(218, 112, 214, 255))
    } else if str_eq(lower, "palegoldenrod") {
        Some(Color::new(238, 232, 170, 255))
    } else if str_eq(lower, "palegreen") {
        Some(Color::new(152, 251, 152, 255))
    } else if str_eq(lower, "paleturquoise") {
        Some(Color::new(175, 238, 238, 255))
    } else if str_eq(lower, "palevioletred") {
        Some(Color::new(219, 112, 147, 255))
    } else if str_eq(lower, "papayawhip") {
        Some(Color::new(255, 239, 213, 255))
    } else if str_eq(lower, "peachpuff") {
        Some(Color::new(255, 218, 185, 255))
    } else if str_eq(lower, "peru") {
        Some(Color::new(205, 133, 63, 255))
    } else if str_eq(lower, "plum") {
        Some(Color::new(221, 160, 221, 255))
    } else if str_eq(lower, "powderblue") {
        Some(Color::new(176, 224, 230, 255))
    } else if str_eq(lower, "rosybrown") {
        Some(Color::new(188, 143, 143, 255))
    } else if str_eq(lower, "royalblue") {
        Some(Color::new(65, 105, 225, 255))
    } else if str_eq(lower, "saddlebrown") {
        Some(Color::new(139, 69, 19, 255))
    } else if str_eq(lower, "salmon") {
        Some(Color::new(250, 128, 114, 255))
    } else if str_eq(lower, "sandybrown") {
        Some(Color::new(244, 164, 96, 255))
    } else if str_eq(lower, "seagreen") {
        Some(Color::new(46, 139, 87, 255))
    } else if str_eq(lower, "seashell") {
        Some(Color::new(255, 245, 238, 255))
    } else if str_eq(lower, "sienna") {
        Some(Color::new(160, 82, 45, 255))
    } else if str_eq(lower, "silver") {
        Some(Color::new(192, 192, 192, 255))
    } else if str_eq(lower, "skyblue") {
        Some(Color::new(135, 206, 235, 255))
    } else if str_eq(lower, "slateblue") {
        Some(Color::new(106, 90, 205, 255))
    } else if str_eq(lower, "slategray") || str_eq(lower, "slategrey") {
        Some(Color::new(112, 128, 144, 255))
    } else if str_eq(lower, "snow") {
        Some(Color::new(255, 250, 250, 255))
    } else if str_eq(lower, "springgreen") {
        Some(Color::new(0, 255, 127, 255))
    } else if str_eq(lower, "steelblue") {
        Some(Color::new(70, 130, 180, 255))
    } else if str_eq(lower, "tan") {
        Some(Color::new(210, 180, 140, 255))
    } else if str_eq(lower, "thistle") {
        Some(Color::new(216, 191, 216, 255))
    } else if str_eq(lower, "tomato") {
        Some(Color::new(255, 99, 71, 255))
    } else if str_eq(lower, "turquoise") {
        Some(Color::new(64, 224, 208, 255))
    } else if str_eq(lower, "violet") {
        Some(Color::new(238, 130, 238, 255))
    } else if str_eq(lower, "wheat") {
        Some(Color::new(245, 222, 179, 255))
    } else if str_eq(lower, "whitesmoke") {
        Some(Color::new(245, 245, 245, 255))
    } else if str_eq(lower, "yellowgreen") {
        Some(Color::new(154, 205, 50, 255))
    } else {
        None
    }
}

/// Look up a named color (full name or single-char shorthand), ignoring case.
pub fn named_color(name: &str) -> (c: Option<Color>)
    ensures
        c == spec_named_color(lowercase(name@)),
{
    let lower = to_lowercase(name);
    named_color_lowercase(lower.as_str())
}

/// An ASCII hexadecimal digit.
pub open spec fn is_hex_digit(c: char) -> bool {
    ('0' <= c && c <= '9') || ('a' <= c && c <= 'f') || ('A' <= c && c <= 'F')
}

/// The value of a hexadecimal digit.
pub open spec fn hex_value(c: char) -> int {
    if '0' <= c && c <= '9' {
        c as int - '0' as int
    } else if 'a' <= c && c <= 'f' {
        c as int - 'a' as int + 10
    } else {
        c as int - 'A' as int + 10
    }
}

/// The byte written by two hexadecimal digits.
pub open spec fn hex_byte(hi: char, lo: char) -> u8 {
    (16 * hex_value(hi) + hex_value(lo)) as u8
}

/// Every character is a hexadecimal digit.
pub open spec fn all_hex_digits(h: Seq<char>) -> bool {
    forall|i: int| 0 <= i < h.len() ==> is_hex_digit(#[trigger] h[i])
}

/// A hex color body (without '#'): RGB (each digit doubled), RRGGBB or RRGGBBAA.
pub open spec fn spec_hex_color(h: Seq<char>) -> Option<Color> {
    if !all_hex_digits(h) {
        None
    } else if h.len() == 3 {
        Some(opaque((17 * hex_value(h[0])) as u8, (17 * hex_value(h[1])) as u8, (17 * hex_value(h[2])) as u8))
    } else if h.len() == 6 {
        Some(opaque(hex_byte(h[0], h[1]), hex_byte(h[2], h[3]), hex_byte(h[4], h[5])))
    } else if h.len() == 8 {
        Some(Color { r: hex_byte(h[0], h[1]), g: hex_byte(h[2], h[3]), b: hex_byte(h[4], h[5]), a: hex_byte(h[6], h[7]) })
    } else {
        None
    }
}

/// Test one character for a hexadecimal digit.
fn is_hex_digit_char(c: char) -> (b: bool)
    ensures
        b == is_hex_digit(c),
{
    ('0' <= c && c <= '9') || ('a' <= c && c <= 'f') || ('A' <= c && c <= 'F')
}

/// The value of one hexadecimal digit.
fn hex_digit_value(c: char) -> (v: u8)
    requires
        is_hex_digit(c),
    ensures
        v as int == hex_value(c),
        v < 16,
{
    if '0' <= c && c <= '9' {
        (c as u32 - '0' as u32) as u8
    } else if 'a' <= c && c <= 'f' {
        (c as u32 - 'a' as u32 + 10) as u8
    } else {
        (c as u32 - 'A' as u32 + 10) as u8
    }
}

/// The byte written by two hexadecimal digits.
fn hex_pair(hi: char, lo: char) -> (v: u8)
    requires
        is_hex_digit(hi),
        is_hex_digit(lo),
    ensures
        v == hex_byte(hi, lo),
{
    let h = hex_digit_value(hi);
    let l = hex_digit_value(lo);
    h * 16 + l
}

/// Parse a hex color string (without the '#' prefix).
/// Supports 3-char (#RGB), 6-char (#RRGGBB), and 8-char (#RRGGBBAA) hex.
pub fn hex_color(hex: &str) -> (c: Option<Color>)
    ensures
        c == spec_hex_color(hex@),
{
    let h = chars_of(hex);
    let n = h.len();
    let mut i: usize = 0;
    while i < n
        invariant
            n == h@.len(),
            h@ == hex@,
            i <= n,
            forall|j: int| 0 <= j < i ==> is_hex_digit(#[trigger] h@[j]),
        decreases n - i,
    {
        if !is_hex_digit_char(h[i]) {
            assert(!is_hex_digit(hex@[i as int]));
            return None;
        }
        i += 1;
    }
    if n == 3 {
        let r = hex_digit_value(h[0]);
        let g = hex_digit_value(h[1]);
        let b = hex_digit_value(h[2]);
        Some(Color::new(r * 17, g * 17, b * 17, 255))
    } else if n == 6 {
        Some(Color::new(hex_pair(h[0], h[1]), hex_pair(h[2], h[3]), hex_pair(h[4], h[5]), 255))
    } else if n == 8 {
        Some(Color::new(hex_pair(h[0], h[1]), hex_pair(h[2], h[3]), hex_pair(h[4], h[5]), hex_pair(h[6], h[7])))
    } else {
        None
    }
}

/// A hex color text: `'#'` followed by the hex body.
pub open spec fn starts_with_hash(t: Seq<char>) -> bool {
    t.len() > 0 && t[0] == '#'
}

/// What a trimmed color text `t` denotes, given `lower`, its lowercase form:
/// a named color first, then a `#` hex color, and opaque black otherwise.
pub open spec fn spec_resolve_color(lower: Seq<char>, t: Seq<char>) -> Color {
    match spec_named_color(lower) {
        Some(c) => c,
        None => {
            if starts_with_hash(t) && spec_hex_color(t.drop_first()) is Some {
                spec_hex_color(t.drop_first())->0
            } else {
                black()
            }
        },
    }
}

/// Test for a leading `'#'`.
fn has_hash_prefix(t: &str) -> (b: bool)
    ensures
        b == starts_with_hash(t@),
{
    t.unicode_len() > 0 && t.get_char(0) == '#'
}

/// The text after its first character.
fn after_first(t: &str) -> (r: &str)
    requires
        t@.len() > 0,
    ensures
        r@ == t@.drop_first(),
{
    let n = t.unicode_len();
    let r = t.substring_char(1, n);
    assert(r@ =~= t@.drop_first());
    r
}

/// Resolve a trimmed color text `text` whose lowercase form is `lower`:
/// the named color if there is one, else the `#` hex color, else black.
pub fn resolve_color(lower: &str, text: &str) -> (c: Color)
    ensures
        c == spec_resolve_color(lower@, text@),
{
    if let Some(c) = named_color_lowercase(lower) {
        return c;
    }
    if has_hash_prefix(text) {
        if let Some(c) = hex_color(after_first(text)) {
            return c;
        }
    }
    Color::new(0, 0, 0, 255)
}

/// Parse a color from a plain string (name, hex). Returns black on failure.
pub fn parse_color_str(s: &str) -> (c: Color)
    ensures
        c == spec_resolve_color(lowercase(trimmed(s@)), trimmed(s@)),
{
    let t = trim(s);
    let lower = to_lowercase(t);
    resolve_color(lower.as_str(), t)
}

/// Why a color text was refused; each carries the trimmed text.
#[derive(Debug, PartialEq, Eq)]
pub enum ColorError {
    /// `'#'` followed by something that is not a 3-, 6- or 8-digit hex body.
    InvalidHex(String),
    /// Neither a hex color nor a known color name.
    UnknownName(String),
}

/// The outcome of strict color-text parsing of a trimmed text `t` whose
/// lowercase form is `lower`: a `#` text must be valid hex, any other text a
/// known name.
pub open spec fn color_text_outcome(lower: Seq<char>, t: Seq<char>, r: Result<Color, ColorError>) -> bool {
    if starts_with_hash(t) {
        match spec_hex_color(t.drop_first()) {
            Some(c) => r == Ok::<Color, ColorError>(c),
            None => r matches Err(ColorError::InvalidHex(m)) && m@ == t,
        }
    } else {
        match spec_named_color(lower) {
            Some(c) => r == Ok::<Color, ColorError>(c),
            None => r matches Err(ColorError::UnknownName(m)) && m@ == t,
        }
    }
}

/// Strict parsing of a trimmed color text `text` whose lowercase form is `lower`.
pub fn resolve_color_text(lower: &str, text: &str) -> (r: Result<Color, ColorError>)
    ensures
        color_text_outcome(lower@, text@, r),
{
    if has_hash_prefix(text) {
        match hex_color(after_first(text)) {
            Some(c) => Ok(c),
            None => Err(ColorError::InvalidHex(text.to_owned())),
        }
    } else {
        match named_color_lowercase(lower) {
            Some(c) => Ok(c),
            None => Err(ColorError::UnknownName(text.to_owned())),
        }
    }
}

/// Strict parsing of a color text (the string case of a color value): a hex
/// color after `'#'`, else a color name; surrounding white space is ignored.
pub fn parse_color_text(s: &str) -> (r: Result<Color, ColorError>)
    ensures
        color_text_outcome(lowercase(trimmed(s@)), trimmed(s@), r),
{
    let t = trim(s);
    let lower = to_lowercase(t);
    resolve_color_text(lower.as_str(), t)
}

/// A three-digit hex color is the six-digit color with every digit doubled
/// (`#abc` is `#aabbcc`).
pub proof fn law_short_hex_doubles_digits(a: char, b: char, c: char)
    requires
        is_hex_digit(a),
        is_hex_digit(b),
        is_hex_digit(c),
    ensures
        spec_hex_color(seq![a, b, c]) == spec_hex_color(seq![a, a, b, b, c, c]),
        spec_hex_color(seq![a, b, c]) is Some,
{
    let s3 = seq![a, b, c];
    let s6 = seq![a, a, b, b, c, c];
    assert(all_hex_digits(s3));
    assert(all_hex_digits(s6));
}

/// A six-digit hex color is the eight-digit color with alpha `ff`.
pub proof fn law_hex_alpha_defaults_opaque(h: Seq<char>)
    requires
        h.len() == 6,
        all_hex_digits(h),
    ensures
        spec_hex_color(h) is Some,
        spec_hex_color(h) == spec_hex_color(h + seq!['f', 'f']),
{
    let h8 = h + seq!['f', 'f'];
    assert forall|i: int| 0 <= i < h8.len() implies is_hex_digit(#[trigger] h8[i]) by {
        if i < 6 {
            assert(h8[i] == h[i]);
        }
    }
    assert(h8[0] == h[0] && h8[1] == h[1] && h8[2] == h[2] && h8[3] == h[3] && h8[4] == h[4] && h8[5] == h[5]);
}

/// Every named color is fully opaque.
pub proof fn law_named_colors_opaque(name: Seq<char>)
    ensures
        spec_named_color(name) matches Some(c) ==> c.a == 255,
{
}

/// A color text that strict parsing accepts and that does not start with
/// `'#'` gives the same color under lenient parsing.
pub proof fn law_strict_named_agrees_with_lenient(lower: Seq<char>, t: Seq<char>, c: Color)
    requires
        !starts_with_hash(t),
        color_text_outcome(lower, t, Ok::<Color, ColorError>(c)),
    ensures
        spec_resolve_color(lower, t) == c,
{
}

/// Lenient parsing of a text that is neither a known name nor a valid `#`
/// hex color gives opaque black.
pub proof fn law_unknown_color_is_black(lower: Seq<char>, t: Seq<char>)
    requires
        spec_named_color(lower) is None,
        !(starts_with_hash(t) && spec_hex_color(t.drop_first()) is Some),
    ensures
        spec_resolve_color(lower, t) == black(),
{
}

/// A color name in ASCII and its lowercase form name the same color, so
/// the lookup ignores case.
pub proof fn law_named_color_ignores_ascii_case(name: Seq<char>)
    requires
        all_ascii(name),
    ensures
        spec_named_color(lowercase(name)) == spec_named_color(lowercase(lowercase(name))),
{
    law_lowercase_ascii_idempotent(name);
}

} // verus!
