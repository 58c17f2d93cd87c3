//! Text anchoring, font data checks and the compositing of rendered glyph
//! pixels.
use vstd::prelude::*;

verus! {

/// Horizontal text anchor.
#[derive(Debug, Clone, Copy, PartialEq, Eq, Structural)]
pub enum TextAnchorX {
    Left,
    Center,
    Right,
}

/// Vertical text anchor.
#[derive(Debug, Clone, Copy, PartialEq, Eq, Structural)]
pub enum TextAnchorY {
    Top,
    Center,
    Bottom,
    Baseline,
}

/// A premultiplied RGBA pixel: no color channel exceeds alpha.
#[derive(Debug, Clone, Copy, PartialEq, Eq)]
pub struct PremulColor {
    r: u8,
    g: u8,
    b: u8,
    a: u8,
}

impl View for PremulColor {
    type V = (u8, u8, u8, u8);

    closed spec fn view(&self) -> (u8, u8, u8, u8) {
        (self.r, self.g, self.b, self.a)
    }
}

/// The channels make a premultiplied color.
pub open spec fn is_premultiplied(r: u8, g: u8, b: u8, a: u8) -> bool {
    r <= a && g <= a && b <= a
}

impl PremulColor {
    #[verifier::type_invariant]
    spec fn inv(self) -> bool {
        is_premultiplied(self.r, self.g, self.b, self.a)
    }

    /// A premultiplied color from its channels, when no color channel
    /// exceeds alpha.
    pub fn from_rgba(r: u8, g: u8, b: u8, a: u8) -> (c: Option<Self>)
        ensures
            c is Some <==> is_premultiplied(r, g, b, a),
            c matches Some(p) ==> p@ == (r, g, b, a),
    {
        if r <= a && g <= a && b <= a {
            Some(PremulColor { r, g, b, a })
        } else {
            None
        }
    }

    /// The fully transparent pixel.
    pub fn transparent() -> (c: Self)
        ensures
            c@ == (0u8, 0u8, 0u8, 0u8),
    {
        PremulColor { r: 0, g: 0, b: 0, a: 0 }
    }

    pub fn red(&self) -> (v: u8)
        ensures
            v == self@.0,
            v <= self@.3,
    {
        proof {
            use_type_invariant(self);
        }
        self.r
    }

    pub fn green(&self) -> (v: u8)
        ensures
            v == self@.1,
            v <= self@.3,
    {
        proof {
            use_type_invariant(self);
        }
        self.g
    }

    pub fn blue(&self) -> (v: u8)
        ensures
            v == self@.2,
            v <= self@.3,
    {
        proof {
            use_type_invariant(self);
        }
        self.b
    }

    pub fn alpha(&self) -> (v: u8)
        ensures
            v == self@.3,
    {
        self.a
    }
}

/// One channel of "source over": `s + d * (255 - sa) / 255`.
pub open spec fn over(s: u8, d: u8, sa: u8) -> int {
    s + d * (255 - sa) / 255
}

/// Standard Porter-Duff "source over" of premultiplied pixels.
pub open spec fn spec_blend(src: (u8, u8, u8, u8), dst: (u8, u8, u8, u8)) -> (u8, u8, u8, u8) {
    (
        over(src.0, dst.0, src.3) as u8,
        over(src.1, dst.1, src.3) as u8,
        over(src.2, dst.2, src.3) as u8,
        over(src.3, dst.3, src.3) as u8,
    )
}

proof fn lemma_over_bounds(s: u8, d: u8, sa: u8, da: u8)
    requires
        s <= sa,
        d <= da,
    ensures
        over(s, d, sa) <= over(sa, da, sa) <= 255,
        over(s, d, sa) >= 0,
{
    let inv = 255 - sa;
    assert(d * inv <= da * inv) by (nonlinear_arith)
        requires
            d <= da,
            0 <= inv,
    ;
    assert(d * inv / 255 <= da * inv / 255) by (nonlinear_arith)
        requires
            d * inv <= da * inv,
    ;
    assert(da * inv <= 255 * inv) by (nonlinear_arith)
        requires
            da <= 255,
            0 <= inv,
    ;
    assert(da * inv / 255 <= inv) by (nonlinear_arith)
        requires
            da * inv <= 255 * inv,
            0 <= inv,
    ;
    assert(d * inv >= 0) by (nonlinear_arith)
        requires
            0 <= d,
            0 <= inv,
    ;
}

/// Alpha-blend source (premultiplied) over destination (premultiplied).
/// Standard Porter-Duff "source over" compositing.
pub fn alpha_blend_premul(src: PremulColor, dst: PremulColor) -> (out: PremulColor)
    ensures
        out@ == spec_blend(src@, dst@),
{
    proof {
        use_type_invariant(src);
        use_type_invariant(dst);
        lemma_over_bounds(src.r, dst.r, src.a, dst.a);
        lemma_over_bounds(src.g, dst.g, src.a, dst.a);
        lemma_over_bounds(src.b, dst.b, src.a, dst.a);
        lemma_over_bounds(src.a, dst.a, src.a, dst.a);
    }
    let sa = src.alpha() as u16;
    let inv_sa = 255 - sa;
    let r = src.red() as u16 + (dst.red() as u16 * inv_sa / 255);
    let g = src.green() as u16 + (dst.green() as u16 * inv_sa / 255);
    let b = src.blue() as u16 + (dst.blue() as u16 * inv_sa / 255);
    let a = sa + (dst.alpha() as u16 * inv_sa / 255);
    match PremulColor::from_rgba(r as u8, g as u8, b as u8, a as u8) {
        Some(c) => c,
        None => PremulColor::transparent(),
    }
}

/// Drawing a fully transparent source leaves the destination unchanged, and
/// an opaque source replaces it.
pub proof fn law_blend_identities(src: (u8, u8, u8, u8), dst: (u8, u8, u8, u8))
    requires
        is_premultiplied(src.0, src.1, src.2, src.3),
        is_premultiplied(dst.0, dst.1, dst.2, dst.3),
    ensures
        src == (0u8, 0u8, 0u8, 0u8) ==> spec_blend(src, dst) == dst,
        src.3 == 255 ==> spec_blend(src, dst) == src,
{
    if src == (0u8, 0u8, 0u8, 0u8) {
        assert(dst.0 * 255 / 255 == dst.0) by (nonlinear_arith);
        assert(dst.1 * 255 / 255 == dst.1) by (nonlinear_arith);
        assert(dst.2 * 255 / 255 == dst.2) by (nonlinear_arith);
        assert(dst.3 * 255 / 255 == dst.3) by (nonlinear_arith);
    }
}

/// Blending keeps pixels premultiplied, and the result is at least as opaque
/// as the source.
pub proof fn law_blend_premultiplied(src: (u8, u8, u8, u8), dst: (u8, u8, u8, u8))
    requires
        is_premultiplied(src.0, src.1, src.2, src.3),
        is_premultiplied(dst.0, dst.1, dst.2, dst.3),
    ensures
        is_premultiplied(spec_blend(src, dst).0, spec_blend(src, dst).1, spec_blend(src, dst).2, spec_blend(src, dst).3),
        spec_blend(src, dst).3 >= src.3,
{
    lemma_over_bounds(src.0, dst.0, src.3, dst.3);
    lemma_over_bounds(src.1, dst.1, src.3, dst.3);
    lemma_over_bounds(src.2, dst.2, src.3, dst.3);
    lemma_over_bounds(src.3, dst.3, src.3, dst.3);
}

#[verifier::external_type_specification]
#[verifier::external_body]
pub struct ExInvalidFont(ab_glyph::InvalidFont);

/// Whether ab_glyph reads the bytes `data` as a font (the first font of a
/// collection).
pub uninterp spec fn font_parses(data: Seq<u8>) -> bool;

/// Calls `ab_glyph::FontRef::try_from_slice` and keeps only whether it
/// succeeded: `Ok` exactly when the bytes parse as a font, as named by
/// `font_parses`. The font format is not restated.
#[verifier::external_body]
fn try_parse_font(data: &[u8]) -> (r: Result<(), ab_glyph::InvalidFont>)
    ensures
        r is Ok <==> font_parses(data@),
{
    match ab_glyph::FontRef::try_from_slice(data) {
        Ok(_) => Ok(()),
        Err(e) => Err(e),
    }
}

/// Why font data was refused.
#[derive(Debug, Clone, Copy, PartialEq, Eq)]
pub enum FontError {
    /// The bytes are not a font that can be read.
    InvalidFont,
}

/// Check that bytes hold a readable font (`.ttf` or `.otf`).
pub fn check_font_data(data: &[u8]) -> (r: Result<(), FontError>)
    ensures
        r is Ok <==> font_parses(data@),
        r is Err ==> r == Err::<(), FontError>(FontError::InvalidFont),
{
    match try_parse_font(data) {
        Ok(()) => Ok(()),
        Err(_) => Err(FontError::InvalidFont),
    }
}

} // verus!
