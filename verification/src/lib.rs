//! Verified core of a small plotting library: color parsing, style
//! keywords, math-text symbol substitution, SVG document assembly and
//! raster export encodings.

pub mod artists;
pub mod axes;
pub mod colors;
pub mod export;
pub mod strs;
pub mod svg_renderer;
pub mod text;
pub mod mathtext;
pub mod numtext;
pub mod parse;
