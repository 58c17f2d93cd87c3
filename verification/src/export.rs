//! Encoders that write a rendered raster image out: PDF and EPS documents
//! around its RGB data, cropping to content, and Base64 text.
use vstd::prelude::*;
use crate::numtext::{decimal, push_decimal, push_zero_padded, zero_padded, hex2, push_hex2};
use crate::strs::{chars_of, ends_with, has_suffix, lowercase, push_char, to_lowercase};
use vstd::utf8::{char_is_scalar, encode_scalar, encode_utf8};
use crate::text::PremulColor;
use vstd::arithmetic::div_mod::{lemma_fundamental_div_mod, lemma_fundamental_div_mod_converse, lemma_mod_pos_bound};

verus! {

broadcast use vstd::string::group_string_axioms;

/// A raster image: `width * height` premultiplied pixels, row by row.
pub struct Raster {
    width: u32,
    height: u32,
    pixels: Vec<PremulColor>,
}

/// What a `Raster` holds: its size and its pixels, row by row.
pub struct RasterView {
    pub width: u32,
    pub height: u32,
    pub pixels: Seq<(u8, u8, u8, u8)>,
}

impl View for Raster {
    type V = RasterView;

    closed spec fn view(&self) -> RasterView {
        RasterView {
            width: self.width,
            height: self.height,
            pixels: self.pixels@.map_values(|p: PremulColor| p@),
        }
    }
}

/// The product of two `u32` values fits in a `u64`.
pub proof fn lemma_u32_product(a: u32, b: u32)
    ensures
        0 <= a as int * b as int <= 0xffff_fffe_0000_0001int,
{
    assert(a as int * b as int <= 0xffff_ffffint * 0xffff_ffffint) by (nonlinear_arith)
        requires
            a <= 0xffff_ffffint,
            b <= 0xffff_ffffint,
    ;
    assert(0 <= a as int * b as int) by (nonlinear_arith)
        requires
            0 <= a,
            0 <= b,
    ;
}

impl Raster {
    #[verifier::type_invariant]
    spec fn inv(self) -> bool {
        self.pixels@.len() == self.width as int * self.height as int
    }

    /// A raster from its size and its pixels, row by row; `None` when the
    /// number of pixels is not `width * height`.
    pub fn new(width: u32, height: u32, pixels: Vec<PremulColor>) -> (r: Option<Self>)
        ensures
            r is Some <==> pixels@.len() == width as int * height as int,
            r matches Some(img) ==> img@ == (RasterView {
                width,
                height,
                pixels: pixels@.map_values(|p: PremulColor| p@),
            }),
    {
        proof {
            lemma_u32_product(width, height);
        }
        if (pixels.len() as u64) == (width as u64) * (height as u64) {
            Some(Raster { width, height, pixels })
        } else {
            None
        }
    }

    pub fn width(&self) -> (w: u32)
        ensures
            w == self@.width,
    {
        self.width
    }

    pub fn height(&self) -> (h: u32)
        ensures
            h == self@.height,
    {
        self.height
    }

    /// The pixels, row by row.
    pub fn pixels(&self) -> (p: &Vec<PremulColor>)
        ensures
            p@.map_values(|q: PremulColor| q@) == self@.pixels,
            p@.len() == self@.width as int * self@.height as int,
    {
        proof {
            use_type_invariant(self);
        }
        &self.pixels
    }

}

/// The bytes of an ASCII text (one byte per character).
pub open spec fn ascii(s: Seq<char>) -> Seq<u8> {
    s.map_values(|c: char| c as u8)
}

/// Append the bytes of an ASCII text.
fn push_text(out: &mut Vec<u8>, s: &str)
    ensures
        final(out)@ == old(out)@ + ascii(s@),
{
    let cs = crate::strs::chars_of(s);
    let n = cs.len();
    let mut i: usize = 0;
    while i < n
        invariant
            n == cs@.len(),
            cs@ == s@,
            i <= n,
            out@ == old(out)@ + ascii(cs@.take(i as int)),
        decreases n - i,
    {
        let c = cs[i];
        out.push(c as u8);
        assert(ascii(cs@.take(i + 1)) =~= ascii(cs@.take(i as int)).push(c as u8));
        assert(out@ =~= old(out)@ + ascii(cs@.take(i + 1)));
        i += 1;
    }
    assert(cs@.take(n as int) =~= cs@);
}

/// Append bytes.
fn push_bytes(out: &mut Vec<u8>, data: &[u8])
    ensures
        final(out)@ == old(out)@ + data@,
{
    let n = data.len();
    let mut i: usize = 0;
    while i < n
        invariant
            n == data@.len(),
            i <= n,
            out@ == old(out)@ + data@.take(i as int),
        decreases n - i,
    {
        out.push(data[i]);
        assert(out@ =~= old(out)@ + data@.take(i + 1));
        i += 1;
    }
    assert(data@.take(n as int) =~= data@);
}

/// A color channel with premultiplication undone, capped at 255.
pub open spec fn unpremul(c: u8, a: u8) -> u8 {
    if c as int * 255 / a as int > 255 {
        255
    } else {
        (c as int * 255 / a as int) as u8
    }
}

/// The RGB bytes of a pixel: its unpremultiplied color, or white when it is
/// fully transparent.
pub open spec fn rgb_of(p: (u8, u8, u8, u8)) -> Seq<u8> {
    if p.3 > 0 {
        seq![unpremul(p.0, p.3), unpremul(p.1, p.3), unpremul(p.2, p.3)]
    } else {
        seq![255u8, 255u8, 255u8]
    }
}

/// The RGB bytes of pixels, three per pixel, in order.
pub open spec fn rgb_data(ps: Seq<(u8, u8, u8, u8)>) -> Seq<u8>
    decreases ps.len(),
{
    if ps.len() == 0 {
        seq![]
    } else {
        rgb_data(ps.drop_last()) + rgb_of(ps.last())
    }
}

proof fn lemma_rgb_data_len(ps: Seq<(u8, u8, u8, u8)>)
    ensures
        rgb_data(ps).len() == 3 * ps.len(),
    decreases ps.len(),
{
    if ps.len() > 0 {
        lemma_rgb_data_len(ps.drop_last());
    }
}

fn unpremul_channel(c: u8, a: u8) -> (v: u8)
    requires
        a > 0,
    ensures
        v == unpremul(c, a),
{
    let x = c as u32 * 255 / a as u32;
    if x > 255 {
        255
    } else {
        x as u8
    }
}

/// The RGB bytes of a raster image (premultiplication undone, alpha dropped,
/// transparent pixels white).
pub fn rgb_bytes(img: &Raster) -> (rgb: Vec<u8>)
    ensures
        rgb@ == rgb_data(img@.pixels),
{
    let ps = img.pixels();
    let ghost pv = img@.pixels;
    let n = ps.len();
    let mut rgb: Vec<u8> = Vec::new();
    let mut i: usize = 0;
    while i < n
        invariant
            n == ps@.len(),
            pv == ps@.map_values(|q: PremulColor| q@),
            i <= n,
            rgb@ == rgb_data(pv.take(i as int)),
        decreases n - i,
    {
        let p = &ps[i];
        let a = p.alpha();
        assert(pv.take(i + 1).drop_last() =~= pv.take(i as int));
        assert(pv.take(i + 1).last() == p@);
        if a > 0 {
            rgb.push(unpremul_channel(p.red(), a));
            rgb.push(unpremul_channel(p.green(), a));
            rgb.push(unpremul_channel(p.blue(), a));
        } else {
            rgb.push(255);
            rgb.push(255);
            rgb.push(255);
        }
        assert(rgb@ =~= rgb_data(pv.take(i + 1)));
        i += 1;
    }
    assert(pv.take(n as int) =~= pv);
    rgb
}

/// The premultiplied RGBA bytes of pixels, four per pixel, in order.
pub open spec fn rgba_data(ps: Seq<(u8, u8, u8, u8)>) -> Seq<u8>
    decreases ps.len(),
{
    if ps.len() == 0 {
        seq![]
    } else {
        rgba_data(ps.drop_last()) + seq![ps.last().0, ps.last().1, ps.last().2, ps.last().3]
    }
}

proof fn lemma_rgba_data_len(ps: Seq<(u8, u8, u8, u8)>)
    ensures
        rgba_data(ps).len() == 4 * ps.len(),
    decreases ps.len(),
{
    if ps.len() > 0 {
        lemma_rgba_data_len(ps.drop_last());
    }
}

/// The premultiplied RGBA bytes of a raster image, row by row.
fn rgba_bytes(img: &Raster) -> (rgba: Vec<u8>)
    ensures
        rgba@ == rgba_data(img@.pixels),
        rgba@.len() == 4 * (img@.width as int * img@.height as int),
{
    let ps = img.pixels();
    let ghost pv = img@.pixels;
    let n = ps.len();
    let mut rgba: Vec<u8> = Vec::new();
    let mut i: usize = 0;
    while i < n
        invariant
            n == ps@.len(),
            pv == ps@.map_values(|q: PremulColor| q@),
            i <= n,
            rgba@ == rgba_data(pv.take(i as int)),
        decreases n - i,
    {
        let p = &ps[i];
        assert(pv.take(i + 1).drop_last() =~= pv.take(i as int));
        assert(pv.take(i + 1).last() == p@);
        rgba.push(p.red());
        rgba.push(p.green());
        rgba.push(p.blue());
        rgba.push(p.alpha());
        assert(rgba@ =~= rgba_data(pv.take(i + 1)));
        i += 1;
    }
    assert(pv.take(n as int) =~= pv);
    proof {
        lemma_rgba_data_len(pv);
    }
    rgba
}

/// The PNG file that tiny-skia writes for a `w` x `h` image given by its
/// premultiplied RGBA bytes `rgba`, or `None` where it refuses to.
pub uninterp spec fn png_encoding(rgba: Seq<u8>, w: u32, h: u32) -> Option<Seq<u8>>;

/// Calls `tiny_skia::PixmapRef::from_bytes` on the pixel data and then
/// `PixmapRef::encode_png`. The bytes are named by `png_encoding`; `None`
/// stands for a refused size or an encoding error. The PNG format itself is
/// not restated. The data must hold exactly four bytes per pixel: the encoder
/// reinterprets it as whole pixels and panics on a partial one.
#[verifier::external_body]
fn encode_png_rgba(rgba: &[u8], w: u32, h: u32) -> (r: Option<Vec<u8>>)
    requires
        rgba@.len() == 4 * (w as int * h as int),
    ensures
        match r {
            Some(v) => png_encoding(rgba@, w, h) == Some(v@),
            None => png_encoding(rgba@, w, h) is None,
        },
{
    match tiny_skia::PixmapRef::from_bytes(rgba, w, h) {
        Some(p) => p.encode_png().ok(),
        None => None,
    }
}

/// The PNG file of a raster image (alpha kept, premultiplication undone by
/// the encoder); `None` when the encoder fails.
pub fn encode_png(img: &Raster) -> (r: Option<Vec<u8>>)
    ensures
        match r {
            Some(v) => png_encoding(rgba_data(img@.pixels), img@.width, img@.height) == Some(v@),
            None => png_encoding(rgba_data(img@.pixels), img@.width, img@.height) is None,
        },
{
    let rgba = rgba_bytes(img);
    encode_png_rgba(rgba.as_slice(), img.width(), img.height())
}

/// The PNG data given to the PDF fallback: the encoded file, or no bytes
/// when encoding failed.
pub open spec fn png_or_empty(png: Option<Seq<u8>>) -> Seq<u8> {
    match png {
        Some(v) => v,
        None => seq![],
    }
}

/// The page object of a `w` x `h` page.
pub open spec fn pdf_page(w: u32, h: u32) -> Seq<char> {
    "3 0 obj\n<< /Type /Page /Parent 2 0 R /MediaBox [0 0 "@ + decimal(w as nat) + " "@ + decimal(h as nat)
        + "] /Contents 5 0 R /Resources << /XObject << /Img 4 0 R >> >> >>\nendobj\n"@
}

/// The head of the image object of an `iw` x `ih` RGB image of `len` bytes.
pub open spec fn pdf_image_head(iw: u32, ih: u32, len: nat) -> Seq<char> {
    "4 0 obj\n<< /Type /XObject /Subtype /Image /Width "@ + decimal(iw as nat) + " /Height "@ + decimal(ih as nat)
        + " /ColorSpace /DeviceRGB /BitsPerComponent 8 /Length "@ + decimal(len) + " >>\nstream\n"@
}

/// The drawing operators that scale the image to the `w` x `h` page.
pub open spec fn pdf_content(w: u32, h: u32) -> Seq<char> {
    decimal(w as nat) + " 0 0 "@ + decimal(h as nat) + " 0 0 cm /Img Do"@
}

/// The content stream object.
pub open spec fn pdf_content_object(w: u32, h: u32) -> Seq<char> {
    "5 0 obj\n<< /Length "@ + decimal(pdf_content(w, h).len()) + " >>\nstream\n"@ + pdf_content(w, h)
        + "\nendstream\nendobj\n"@
}

/// One in-use entry of the cross-reference table.
pub open spec fn xref_entry(offset: nat) -> Seq<char> {
    zero_padded(offset, 10) + " 00000 n \n"@
}

/// The cross-reference table of objects 1 to 5 at the given byte offsets.
pub open spec fn pdf_xref(o1: nat, o2: nat, o3: nat, o4: nat, o5: nat) -> Seq<char> {
    "xref\n"@ + "0 6\n"@ + "0000000000 65535 f \n"@ + xref_entry(o1) + xref_entry(o2) + xref_entry(o3)
        + xref_entry(o4) + xref_entry(o5)
}

/// The trailer, pointing at the cross-reference table at byte offset `ox`.
pub open spec fn pdf_trailer(ox: nat) -> Seq<char> {
    "trailer\n<< /Size 6 /Root 1 0 R >>\nstartxref\n"@ + decimal(ox) + "\n%%EOF\n"@
}

/// A one-page PDF: a `w` x `h` page showing an `iw` x `ih` RGB image with
/// the bytes `data`, scaled to the page; then the cross-reference table of
/// the five objects' byte offsets and the trailer.
pub open spec fn spec_pdf(w: u32, h: u32, iw: u32, ih: u32, data: Seq<u8>) -> Seq<u8> {
    let p0 = ascii("%PDF-1.4\n"@);
    let p1 = ascii("1 0 obj\n<< /Type /Catalog /Pages 2 0 R >>\nendobj\n"@);
    let p2 = ascii("2 0 obj\n<< /Type /Pages /Kids [3 0 R] /Count 1 >>\nendobj\n"@);
    let p3 = ascii(pdf_page(w, h));
    let p4 = ascii(pdf_image_head(iw, ih, data.len())) + data + ascii("\nendstream\nendobj\n"@);
    let p5 = ascii(pdf_content_object(w, h));
    let o1 = p0.len();
    let o2 = o1 + p1.len();
    let o3 = o2 + p2.len();
    let o4 = o3 + p3.len();
    let o5 = o4 + p4.len();
    let ox = o5 + p5.len();
    p0 + p1 + p2 + p3 + p4 + p5 + ascii(pdf_xref(o1, o2, o3, o4, o5)) + ascii(pdf_trailer(ox))
}

/// Append the bytes of a string's (ASCII) text.
fn push_string(out: &mut Vec<u8>, s: &String)
    ensures
        final(out)@ == old(out)@ + ascii(s@),
{
    push_text(out, s.as_str());
}

fn pdf_page_text(w: u32, h: u32) -> (s: String)
    ensures
        s@ == pdf_page(w, h),
{
    let mut s = String::new();
    s.append("3 0 obj\n<< /Type /Page /Parent 2 0 R /MediaBox [0 0 ");
    push_decimal(&mut s, w as u64);
    s.append(" ");
    push_decimal(&mut s, h as u64);
    s.append("] /Contents 5 0 R /Resources << /XObject << /Img 4 0 R >> >> >>\nendobj\n");
    assert(s@ =~= pdf_page(w, h));
    s
}

fn pdf_image_head_text(iw: u32, ih: u32, len: u64) -> (s: String)
    ensures
        s@ == pdf_image_head(iw, ih, len as nat),
{
    let mut s = String::new();
    s.append("4 0 obj\n<< /Type /XObject /Subtype /Image /Width ");
    push_decimal(&mut s, iw as u64);
    s.append(" /Height ");
    push_decimal(&mut s, ih as u64);
    s.append(" /ColorSpace /DeviceRGB /BitsPerComponent 8 /Length ");
    push_decimal(&mut s, len);
    s.append(" >>\nstream\n");
    assert(s@ =~= pdf_image_head(iw, ih, len as nat));
    s
}

fn pdf_content_object_text(w: u32, h: u32) -> (s: String)
    ensures
        s@ == pdf_content_object(w, h),
{
    let mut content = String::new();
    push_decimal(&mut content, w as u64);
    content.append(" 0 0 ");
    push_decimal(&mut content, h as u64);
    content.append(" 0 0 cm /Img Do");
    assert(content@ =~= pdf_content(w, h));
    let clen = content.as_str().unicode_len();
    let mut s = String::new();
    s.append("5 0 obj\n<< /Length ");
    push_decimal(&mut s, clen as u64);
    s.append(" >>\nstream\n");
    s.append(content.as_str());
    s.append("\nendstream\nendobj\n");
    assert(s@ =~= pdf_content_object(w, h));
    s
}

fn pdf_xref_text(o1: u64, o2: u64, o3: u64, o4: u64, o5: u64) -> (s: String)
    ensures
        s@ == pdf_xref(o1 as nat, o2 as nat, o3 as nat, o4 as nat, o5 as nat),
{
    let mut x = String::new();
    x.append("xref\n");
    x.append("0 6\n");
    x.append("0000000000 65535 f \n");
    push_zero_padded(&mut x, o1, 10);
    x.append(" 00000 n \n");
    push_zero_padded(&mut x, o2, 10);
    x.append(" 00000 n \n");
    push_zero_padded(&mut x, o3, 10);
    x.append(" 00000 n \n");
    push_zero_padded(&mut x, o4, 10);
    x.append(" 00000 n \n");
    push_zero_padded(&mut x, o5, 10);
    x.append(" 00000 n \n");
    assert(x@ =~= pdf_xref(o1 as nat, o2 as nat, o3 as nat, o4 as nat, o5 as nat));
    x
}

fn pdf_trailer_text(ox: u64) -> (s: String)
    ensures
        s@ == pdf_trailer(ox as nat),
{
    let mut t = String::new();
    t.append("trailer\n<< /Size 6 /Root 1 0 R >>\nstartxref\n");
    push_decimal(&mut t, ox);
    t.append("\n%%EOF\n");
    assert(t@ =~= pdf_trailer(ox as nat));
    t
}

/// The one-page PDF document of `spec_pdf`.
fn pdf_document(w: u32, h: u32, iw: u32, ih: u32, data: &[u8]) -> (pdf: Vec<u8>)
    ensures
        pdf@ == spec_pdf(w, h, iw, ih, data@),
{
    let ghost p0 = ascii("%PDF-1.4\n"@);
    let ghost p1 = ascii("1 0 obj\n<< /Type /Catalog /Pages 2 0 R >>\nendobj\n"@);
    let ghost p2 = ascii("2 0 obj\n<< /Type /Pages /Kids [3 0 R] /Count 1 >>\nendobj\n"@);
    let ghost p3 = ascii(pdf_page(w, h));
    let ghost p4 = ascii(pdf_image_head(iw, ih, data@.len())) + data@ + ascii("\nendstream\nendobj\n"@);
    let ghost p5 = ascii(pdf_content_object(w, h));

    let mut pdf: Vec<u8> = Vec::new();
    push_text(&mut pdf, "%PDF-1.4\n");
    assert(pdf@ =~= p0);
    let o1 = pdf.len();
    push_text(&mut pdf, "1 0 obj\n<< /Type /Catalog /Pages 2 0 R >>\nendobj\n");
    let o2 = pdf.len();
    push_text(&mut pdf, "2 0 obj\n<< /Type /Pages /Kids [3 0 R] /Count 1 >>\nendobj\n");
    let o3 = pdf.len();
    let s3 = pdf_page_text(w, h);
    push_string(&mut pdf, &s3);
    let o4 = pdf.len();
    let ghost before4 = pdf@;
    let s4 = pdf_image_head_text(iw, ih, data.len() as u64);
    push_string(&mut pdf, &s4);
    push_bytes(&mut pdf, data);
    push_text(&mut pdf, "\nendstream\nendobj\n");
    assert(pdf@ =~= before4 + p4);
    let o5 = pdf.len();
    let s5 = pdf_content_object_text(w, h);
    push_string(&mut pdf, &s5);
    let ox = pdf.len();
    let ghost body = pdf@;
    assert(body =~= p0 + p1 + p2 + p3 + p4 + p5);
    let x = pdf_xref_text(o1 as u64, o2 as u64, o3 as u64, o4 as u64, o5 as u64);
    push_string(&mut pdf, &x);
    let t = pdf_trailer_text(ox as u64);
    push_string(&mut pdf, &t);
    pdf
}

/// The PDF of a raster image: its RGB data as the page image; when that data
/// would exceed 100 MB, its PNG file instead (no bytes if encoding failed).
pub open spec fn spec_render_pdf(img: RasterView) -> Seq<u8> {
    if img.width as int * img.height as int * 3 > 100_000_000 {
        spec_pdf(img.width, img.height, img.width, img.height, png_or_empty(
            png_encoding(rgba_data(img.pixels), img.width, img.height),
        ))
    } else {
        spec_pdf(img.width, img.height, img.width, img.height, rgb_data(img.pixels))
    }
}

/// Render a PDF embedding the image as raw RGB data, or, when that would
/// exceed 100 MB, as PNG data through `render_pdf_with_png`.
pub fn render_pdf(img: &Raster) -> (pdf: Vec<u8>)
    ensures
        pdf@ == spec_render_pdf(img@),
{
    let w = img.width();
    let h = img.height();
    proof {
        lemma_u32_product(w, h);
    }
    let total = (w as u128) * (h as u128) * 3;
    if total > 100_000_000 {
        let png_data = match encode_png(img) {
            Some(v) => v,
            None => Vec::new(),
        };
        return render_pdf_with_png(w, h, png_data.as_slice());
    }
    let rgb = rgb_bytes(img);
    pdf_document(w, h, w, h, rgb.as_slice())
}

/// Render a PDF embedding compressed PNG data instead of raw RGB: the page
/// of size `w` x `h` shows a `w` x `h` image whose stream holds `png_data`.
/// Used as fallback when raw RGB would exceed the size limit.
pub fn render_pdf_with_png(w: u32, h: u32, png_data: &[u8]) -> (pdf: Vec<u8>)
    ensures
        pdf@ == spec_pdf(w, h, w, h, png_data@),
{
    pdf_document(w, h, w, h, png_data)
}

/// The uppercase hex digits of every byte.
pub open spec fn hexes(d: Seq<u8>) -> Seq<char>
    decreases d.len(),
{
    if d.len() == 0 {
        seq![]
    } else {
        hexes(d.drop_last()) + hex2(d.last())
    }
}

/// The hex lines of `d` from byte `c` on: 36 bytes (72 digits) per line.
pub open spec fn hex_lines_from(d: Seq<u8>, c: int) -> Seq<char>
    decreases d.len() + 36 - c,
{
    if c < 0 || c >= d.len() {
        seq![]
    } else {
        let e = if c + 36 < d.len() {
            c + 36
        } else {
            d.len() as int
        };
        hexes(d.subrange(c, e)) + seq!['\n'] + hex_lines_from(d, c + 36)
    }
}

/// An EPS document drawing `rgb` as a `w` x `h` color image read from hex data.
pub open spec fn eps_text(w: u32, h: u32, rgb: Seq<u8>) -> Seq<char> {
    let dw = decimal(w as nat);
    let dh = decimal(h as nat);
    "%!PS-Adobe-3.0 EPSF-3.0\n%%BoundingBox: 0 0 "@ + dw + " "@ + dh + "\n%%EndComments\n"@ + dw + " "@ + dh
        + " scale\n"@ + dw + " "@ + dh + " 8 ["@ + dw + " 0 0 -"@ + dh + " 0 "@ + dh
        + "]\n{currentfile 3 "@ + dw + " mul string readhexstring pop} false 3 colorimage\n"@
        + hex_lines_from(rgb, 0) + "showpage\n%%EOF\n"@
}

/// Append one line of hex digits for `d[c..e]`.
fn push_hex_line(out: &mut String, d: &Vec<u8>, c: usize, e: usize)
    requires
        c <= e <= d@.len(),
    ensures
        final(out)@ == old(out)@ + hexes(d@.subrange(c as int, e as int)) + seq!['\n'],
{
    let mut k = c;
    while k < e
        invariant
            c <= k <= e,
            e <= d@.len(),
            out@ == old(out)@ + hexes(d@.subrange(c as int, k as int)),
        decreases e - k,
    {
        push_hex2(out, d[k]);
        assert(d@.subrange(c as int, k + 1).drop_last() =~= d@.subrange(c as int, k as int));
        k += 1;
    }
    push_char(out, '\n');
}

/// Render an EPS (Encapsulated PostScript) file embedding the image as raw
/// RGB hex data, 72 hex digits (12 pixels) per line.
pub fn render_eps(img: &Raster) -> (eps: Vec<u8>)
    ensures
        eps@ == ascii(eps_text(img@.width, img@.height, rgb_data(img@.pixels))),
{
    let w = img.width() as u64;
    let h = img.height() as u64;
    let rgb = rgb_bytes(img);
    let mut s = String::new();
    s.append("%!PS-Adobe-3.0 EPSF-3.0\n%%BoundingBox: 0 0 ");
    push_decimal(&mut s, w);
    s.append(" ");
    push_decimal(&mut s, h);
    s.append("\n%%EndComments\n");
    push_decimal(&mut s, w);
    s.append(" ");
    push_decimal(&mut s, h);
    s.append(" scale\n");
    push_decimal(&mut s, w);
    s.append(" ");
    push_decimal(&mut s, h);
    s.append(" 8 [");
    push_decimal(&mut s, w);
    s.append(" 0 0 -");
    push_decimal(&mut s, h);
    s.append(" 0 ");
    push_decimal(&mut s, h);
    s.append("]\n{currentfile 3 ");
    push_decimal(&mut s, w);
    s.append(" mul string readhexstring pop} false 3 colorimage\n");
    let ghost head = s@;

    let n = rgb.len();
    let mut c: usize = 0;
    while c < n
        invariant
            n == rgb@.len(),
            c <= n,
            s@ + hex_lines_from(rgb@, c as int) == head + hex_lines_from(rgb@, 0),
        decreases n - c,
    {
        let e = if n - c > 36 {
            c + 36
        } else {
            n
        };
        let ghost before = s@;
        push_hex_line(&mut s, &rgb, c, e);
        assert(s@ + hex_lines_from(rgb@, c + 36) =~= before + hex_lines_from(rgb@, c as int));
        if e == n {
            assert(hex_lines_from(rgb@, c + 36) =~= Seq::<char>::empty());
            c = n;
        } else {
            c = e;
        }
    }
    s.append("showpage\n%%EOF\n");
    assert(s@ =~= eps_text(img@.width, img@.height, rgb@));
    let mut eps: Vec<u8> = Vec::new();
    push_string(&mut eps, &s);
    assert(eps@ =~= ascii(s@));
    eps
}

/// The Base64 digit of a 6-bit value (`A-Z`, `a-z`, `0-9`, `+`, `/`).
pub open spec fn b64_digit(v: int) -> char {
    if v < 26 {
        (v + 65) as char
    } else if v < 52 {
        (v - 26 + 97) as char
    } else if v < 62 {
        (v - 52 + 48) as char
    } else if v == 62 {
        '+'
    } else {
        '/'
    }
}

/// The Base64 text of the (up to) three bytes of `d` at `c`: four digits,
/// with `=` for each missing byte of a final short group.
pub open spec fn b64_group(d: Seq<u8>, c: int) -> Seq<char> {
    let n = d.len() - c;
    let b0 = d[c] as int;
    let b1 = if n > 1 {
        d[c + 1] as int
    } else {
        0
    };
    let b2 = if n > 2 {
        d[c + 2] as int
    } else {
        0
    };
    let triple = b0 * 65536 + b1 * 256 + b2;
    seq![
        b64_digit(triple / 262144 % 64),
        b64_digit(triple / 4096 % 64),
        if n > 1 {
            b64_digit(triple / 64 % 64)
        } else {
            '='
        },
        if n > 2 {
            b64_digit(triple % 64)
        } else {
            '='
        },
    ]
}

/// The Base64 text of `d` from byte `c` on.
pub open spec fn b64_from(d: Seq<u8>, c: int) -> Seq<char>
    decreases d.len() + 3 - c,
{
    if c < 0 || c >= d.len() {
        seq![]
    } else {
        b64_group(d, c) + b64_from(d, c + 3)
    }
}

/// The standard Base64 encoding (with `=` padding) of `d`.
pub open spec fn spec_base64(d: Seq<u8>) -> Seq<char> {
    b64_from(d, 0)
}

fn b64_digit_exec(v: u32) -> (c: char)
    requires
        v < 64,
    ensures
        c == b64_digit(v as int),
{
    if v < 26 {
        ((v + 65) as u8) as char
    } else if v < 52 {
        ((v - 26 + 97) as u8) as char
    } else if v < 62 {
        ((v - 52 + 48) as u8) as char
    } else if v == 62 {
        '+'
    } else {
        '/'
    }
}

/// Simple Base64 encoder (standard alphabet, `=` padding).
pub fn simple_base64_encode(data: &[u8]) -> (r: String)
    ensures
        r@ == spec_base64(data@),
{
    let n = data.len();
    let mut result = String::new();
    let mut c: usize = 0;
    while c < n
        invariant
            n == data@.len(),
            c <= n,
            result@ + b64_from(data@, c as int) == spec_base64(data@),
        decreases n - c,
    {
        let len = n - c;
        let b0 = data[c] as u32;
        let b1 = if len > 1 {
            data[c + 1] as u32
        } else {
            0
        };
        let b2 = if len > 2 {
            data[c + 2] as u32
        } else {
            0
        };
        let triple = (b0 << 16) | (b1 << 8) | b2;
        assert(triple == b0 * 65536 + b1 * 256 + b2) by (bit_vector)
            requires
                b0 < 256,
                b1 < 256,
                b2 < 256,
                triple == (b0 << 16) | (b1 << 8) | b2,
        ;
        assert((triple >> 18) & 0x3F == triple / 262144 % 64) by (bit_vector);
        assert((triple >> 12) & 0x3F == triple / 4096 % 64) by (bit_vector);
        assert((triple >> 6) & 0x3F == triple / 64 % 64) by (bit_vector);
        assert(triple & 0x3F == triple % 64) by (bit_vector);
        let ghost before = result@;
        push_char(&mut result, b64_digit_exec((triple >> 18) & 0x3F));
        push_char(&mut result, b64_digit_exec((triple >> 12) & 0x3F));
        if len > 1 {
            push_char(&mut result, b64_digit_exec((triple >> 6) & 0x3F));
        } else {
            push_char(&mut result, '=');
        }
        if len > 2 {
            push_char(&mut result, b64_digit_exec(triple & 0x3F));
        } else {
            push_char(&mut result, '=');
        }
        assert(result@ =~= before + b64_group(data@, c as int));
        assert(result@ + b64_from(data@, c + 3) =~= before + b64_from(data@, c as int));
        if len <= 3 {
            assert(b64_from(data@, c + 3) =~= Seq::<char>::empty());
            c = n;
        } else {
            c = c + 3;
        }
    }
    result
}

proof fn lemma_b64_len(d: Seq<u8>, c: int)
    requires
        0 <= c,
    ensures
        c < d.len() ==> b64_from(d, c).len() == 4 * ((d.len() - c + 2) / 3),
        c >= d.len() ==> b64_from(d, c).len() == 0,
    decreases d.len() + 3 - c,
{
    if c < d.len() {
        lemma_b64_len(d, c + 3);
    }
}

/// Base64 text is four characters for every started group of three bytes.
pub proof fn law_base64_length(d: Seq<u8>)
    ensures
        spec_base64(d).len() == 4 * ((d.len() + 2) / 3),
{
    lemma_b64_len(d, 0);
}

/// A channel with premultiplication undone, as a byte (compared with the
/// background color).
pub open spec fn unpremul_byte(c: u8, a: u8) -> u8 {
    (c as int * 255 / a as int) as u8
}

/// Whether a pixel belongs to the content: any visible pixel on a
/// transparent background, else a visible pixel whose color differs from
/// the background color.
pub open spec fn is_content(p: (u8, u8, u8, u8), bg_r: u8, bg_g: u8, bg_b: u8, transparent_bg: bool) -> bool {
    if transparent_bg {
        p.3 > 0
    } else {
        p.3 > 0 && (unpremul_byte(p.0, p.3) != bg_r || unpremul_byte(p.1, p.3) != bg_g || unpremul_byte(
            p.2,
            p.3,
        ) != bg_b)
    }
}

/// The content bounds `(min_x, max_x, min_y, max_y)` after the first `k`
/// pixels of a `w` x `h` image, starting from `(w, 0, h, 0)`.
pub open spec fn content_bounds(
    ps: Seq<(u8, u8, u8, u8)>,
    w: u32,
    h: u32,
    k: int,
    bg_r: u8,
    bg_g: u8,
    bg_b: u8,
    transparent_bg: bool,
) -> (u32, u32, u32, u32)
    decreases k,
{
    if k <= 0 || w == 0 {
        (w, 0, h, 0)
    } else {
        let (a, b, c, d) = content_bounds(ps, w, h, k - 1, bg_r, bg_g, bg_b, transparent_bg);
        let x = ((k - 1) % w as int) as u32;
        let y = ((k - 1) / w as int) as u32;
        if is_content(ps[k - 1], bg_r, bg_g, bg_b, transparent_bg) {
            (
                if x < a {
                    x
                } else {
                    a
                },
                if x > b {
                    x
                } else {
                    b
                },
                if y < c {
                    y
                } else {
                    c
                },
                if y > d {
                    y
                } else {
                    d
                },
            )
        } else {
            (a, b, c, d)
        }
    }
}

/// The image cropped to its content with `pad` pixels of margin (kept
/// within the image); the whole image when the content spans less than two
/// columns or rows.
pub open spec fn spec_crop(img: RasterView, bg_r: u8, bg_g: u8, bg_b: u8, transparent_bg: bool, pad: u32) -> RasterView {
    let w = img.width;
    let h = img.height;
    let (x_min, x_max, y_min, y_max) = content_bounds(
        img.pixels,
        w,
        h,
        w as int * h as int,
        bg_r,
        bg_g,
        bg_b,
        transparent_bg,
    );
    if x_min >= x_max || y_min >= y_max {
        img
    } else {
        let x0 = if x_min >= pad {
            x_min - pad
        } else {
            0
        };
        let y0 = if y_min >= pad {
            y_min - pad
        } else {
            0
        };
        let x1 = if x_max + pad + 1 < w {
            x_max + pad + 1
        } else {
            w as int
        };
        let y1 = if y_max + pad + 1 < h {
            y_max + pad + 1
        } else {
            h as int
        };
        let cw = x1 - x0;
        let ch = y1 - y0;
        RasterView {
            width: cw as u32,
            height: ch as u32,
            pixels: Seq::new(
                (cw * ch) as nat,
                |i: int| img.pixels[(y0 + i / cw) * w as int + x0 + i % cw],
            ),
        }
    }
}

proof fn lemma_grid_index(x: int, y: int, w: int, h: int)
    requires
        0 <= x < w,
        0 <= y < h,
    ensures
        0 <= y * w + x < w * h,
        (y * w + x) % w == x,
        (y * w + x) / w == y,
{
    assert(0 <= y * w + x < w * h) by (nonlinear_arith)
        requires
            0 <= x < w,
            0 <= y < h,
    ;
    lemma_fundamental_div_mod_converse(y * w + x, w, y, x);
}

proof fn lemma_content_bounds(
    ps: Seq<(u8, u8, u8, u8)>,
    w: u32,
    h: u32,
    k: int,
    bg_r: u8,
    bg_g: u8,
    bg_b: u8,
    t: bool,
)
    requires
        0 <= k <= w as int * h as int,
    ensures
        ({
            let (a, b, c, d) = content_bounds(ps, w, h, k, bg_r, bg_g, bg_b, t);
            a <= w && (b == 0 || b < w) && c <= h && (d == 0 || d < h)
        }),
    decreases k,
{
    if k > 0 && w > 0 {
        lemma_content_bounds(ps, w, h, k - 1, bg_r, bg_g, bg_b, t);
        let x = (k - 1) % w as int;
        let y = (k - 1) / w as int;
        lemma_fundamental_div_mod(k - 1, w as int);
        lemma_mod_pos_bound(k - 1, w as int);
        assert(y < h) by (nonlinear_arith)
            requires
                k - 1 == w * y + x,
                0 <= x,
                k - 1 < w * h,
                w > 0,
        ;
    }
}

/// Scan an image for its content bounds.
fn scan_content(img: &Raster, bg_r: u8, bg_g: u8, bg_b: u8, transparent_bg: bool) -> (r: (u32, u32, u32, u32))
    ensures
        r == content_bounds(
            img@.pixels,
            img@.width,
            img@.height,
            img@.width as int * img@.height as int,
            bg_r,
            bg_g,
            bg_b,
            transparent_bg,
        ),
{
    let w = img.width();
    let h = img.height();
    let ps = img.pixels();
    let n = ps.len();
    let ghost pv = img@.pixels;
    let mut min_x = w;
    let mut max_x: u32 = 0;
    let mut min_y = h;
    let mut max_y: u32 = 0;
    let mut y: u32 = 0;
    while y < h
        invariant
            w == img@.width,
            h == img@.height,
            pv == img@.pixels,
            pv == ps@.map_values(|q: PremulColor| q@),
            ps@.len() == w as int * h as int,
            n == ps@.len(),
            y <= h,
            (min_x, max_x, min_y, max_y) == content_bounds(pv, w, h, y as int * w as int, bg_r, bg_g, bg_b, transparent_bg),
        decreases h - y,
    {
        let mut x: u32 = 0;
        while x < w
            invariant
                w == img@.width,
                h == img@.height,
                pv == ps@.map_values(|q: PremulColor| q@),
                ps@.len() == w as int * h as int,
                n == ps@.len(),
                y < h,
                x <= w,
                (min_x, max_x, min_y, max_y) == content_bounds(
                    pv,
                    w,
                    h,
                    y as int * w as int + x as int,
                    bg_r,
                    bg_g,
                    bg_b,
                    transparent_bg,
                ),
            decreases w - x,
        {
            proof {
                lemma_grid_index(x as int, y as int, w as int, h as int);
            }
            let idx = (y as usize) * (w as usize) + (x as usize);
            let px = &ps[idx];
            let a = px.alpha();
            let content = if transparent_bg {
                a > 0
            } else if a > 0 {
                let ur = (px.red() as u32 * 255 / a as u32) as u8;
                let ug = (px.green() as u32 * 255 / a as u32) as u8;
                let ub = (px.blue() as u32 * 255 / a as u32) as u8;
                ur != bg_r || ug != bg_g || ub != bg_b
            } else {
                false
            };
            assert(pv[idx as int] == px@);
            if content {
                if x < min_x {
                    min_x = x;
                }
                if x > max_x {
                    max_x = x;
                }
                if y < min_y {
                    min_y = y;
                }
                if y > max_y {
                    max_y = y;
                }
            }
            x += 1;
        }
        assert(y as int * w as int + w as int == (y + 1) as int * w as int) by (nonlinear_arith);
        y += 1;
    }
    assert(h as int * w as int == w as int * h as int) by (nonlinear_arith);
    (min_x, max_x, min_y, max_y)
}

/// The `cw` x `ch` region of an image whose top-left pixel is at (`x0`, `y0`).
fn copy_region(img: &Raster, x0: u32, y0: u32, cw: u32, ch: u32) -> (out: Vec<PremulColor>)
    requires
        x0 as int + cw as int <= img@.width,
        y0 as int + ch as int <= img@.height,
        cw > 0,
    ensures
        out@.map_values(|q: PremulColor| q@) == Seq::new(
            (cw as int * ch as int) as nat,
            |i: int| img@.pixels[(y0 + i / cw as int) * img@.width as int + x0 + i % cw as int],
        ),
{
    let w = img.width();
    let h = img.height();
    let ps = img.pixels();
    let n = ps.len();
    let ghost pv = img@.pixels;
    let ghost f = |i: int| pv[(y0 + i / cw as int) * w as int + x0 + i % cw as int];
    let mut out: Vec<PremulColor> = Vec::new();
    let mut cy: u32 = 0;
    while cy < ch
        invariant
            w == img@.width,
            h == img@.height,
            pv == img@.pixels,
            pv == ps@.map_values(|q: PremulColor| q@),
            ps@.len() == w as int * h as int,
            n == ps@.len(),
            x0 as int + cw as int <= w,
            y0 as int + ch as int <= h,
            cw > 0,
            cy <= ch,
            f == (|i: int| pv[(y0 + i / cw as int) * w as int + x0 + i % cw as int]),
            out@.map_values(|q: PremulColor| q@) == Seq::new((cy as int * cw as int) as nat, f),
        decreases ch - cy,
    {
        let mut cx: u32 = 0;
        while cx < cw
            invariant
                w == img@.width,
                h == img@.height,
                pv == ps@.map_values(|q: PremulColor| q@),
                ps@.len() == w as int * h as int,
                n == ps@.len(),
                x0 as int + cw as int <= w,
                y0 as int + ch as int <= h,
                cy < ch,
                cx <= cw,
                f == (|i: int| pv[(y0 + i / cw as int) * w as int + x0 + i % cw as int]),
                out@.map_values(|q: PremulColor| q@) == Seq::new((cy as int * cw as int + cx as int) as nat, f),
            decreases cw - cx,
        {
            proof {
                lemma_grid_index((x0 + cx) as int, (y0 + cy) as int, w as int, h as int);
                lemma_grid_index(cx as int, cy as int, cw as int, ch as int);
            }
            let src_idx = ((y0 + cy) as usize) * (w as usize) + ((x0 + cx) as usize);
            let ghost before = out@.map_values(|q: PremulColor| q@);
            out.push(ps[src_idx]);
            assert(out@.map_values(|q: PremulColor| q@) =~= before.push(pv[src_idx as int]));
            assert(out@.map_values(|q: PremulColor| q@) =~= Seq::new((cy as int * cw as int + cx as int + 1) as nat, f));
            cx += 1;
        }
        assert(cy as int * cw as int + cw as int == (cy + 1) as int * cw as int) by (nonlinear_arith);
        cy += 1;
    }
    assert(ch as int * cw as int == cw as int * ch as int) by (nonlinear_arith);
    out
}

/// Crop an image to its content, removing background-colored borders;
/// `pad` is the number of padding pixels kept around the content.
pub fn crop_to_content(img: &Raster, bg_r: u8, bg_g: u8, bg_b: u8, transparent_bg: bool, pad: u32) -> (r: Raster)
    ensures
        r@ == spec_crop(img@, bg_r, bg_g, bg_b, transparent_bg, pad),
{
    let w = img.width();
    let h = img.height();
    let (min_x, max_x, min_y, max_y) = scan_content(img, bg_r, bg_g, bg_b, transparent_bg);
    proof {
        lemma_content_bounds(img@.pixels, w, h, w as int * h as int, bg_r, bg_g, bg_b, transparent_bg);
    }
    if min_x >= max_x || min_y >= max_y {
        let ps = img.pixels();
        let copy = ps.clone();
        assert(copy@.map_values(|q: PremulColor| q@) =~= img@.pixels);
        return Raster { width: w, height: h, pixels: copy };
    }
    let x0 = if min_x >= pad {
        min_x - pad
    } else {
        0
    };
    let y0 = if min_y >= pad {
        min_y - pad
    } else {
        0
    };
    let x1 = if (max_x as u64) + (pad as u64) + 1 < w as u64 {
        max_x + pad + 1
    } else {
        w
    };
    let y1 = if (max_y as u64) + (pad as u64) + 1 < h as u64 {
        max_y + pad + 1
    } else {
        h
    };
    let cw = x1 - x0;
    let ch = y1 - y0;
    let pixels = copy_region(img, x0, y0, cw, ch);
    assert(pixels@.len() == cw as int * ch as int) by {
        assert(pixels@.map_values(|q: PremulColor| q@).len() == pixels@.len());
    }
    let r = Raster { width: cw, height: ch, pixels };
    assert(r@.pixels =~= spec_crop(img@, bg_r, bg_g, bg_b, transparent_bg, pad).pixels);
    r
}

/// `v` kept within `lo..=hi`.
pub open spec fn clamp(v: u32, lo: u32, hi: u32) -> u32 {
    if v > hi {
        hi
    } else if v < lo {
        lo
    } else {
        v
    }
}

/// Clamp a requested figure size (pixels) and resolution to the supported
/// range, as a new figure does: width and height within `1..=32768` pixels,
/// dpi within `1..=1200`.
pub fn clamp_figure_size(width: u32, height: u32, dpi: u32) -> (r: (u32, u32, u32))
    ensures
        r == (clamp(width, 1, 32768), clamp(height, 1, 32768), clamp(dpi, 1, 1200)),
{
    let w = if width > 32768 {
        32768
    } else if width < 1 {
        1
    } else {
        width
    };
    let h = if height > 32768 {
        32768
    } else if height < 1 {
        1
    } else {
        height
    };
    let d = if dpi > 1200 {
        1200
    } else if dpi < 1 {
        1
    } else {
        dpi
    };
    (w, h, d)
}

/// Cropping never grows the image.
pub proof fn law_crop_within_image(img: RasterView, bg_r: u8, bg_g: u8, bg_b: u8, transparent_bg: bool, pad: u32)
    ensures
        spec_crop(img, bg_r, bg_g, bg_b, transparent_bg, pad).width <= img.width,
        spec_crop(img, bg_r, bg_g, bg_b, transparent_bg, pad).height <= img.height,
{
    assert(img.width as int * img.height as int >= 0) by (nonlinear_arith);
    lemma_content_bounds(
        img.pixels,
        img.width,
        img.height,
        img.width as int * img.height as int,
        bg_r,
        bg_g,
        bg_b,
        transparent_bg,
    );
}

/// The pixel in column `x` and row `y` of an image.
pub open spec fn pixel_at(img: RasterView, x: int, y: int) -> (u8, u8, u8, u8) {
    img.pixels[y * img.width + x]
}

proof fn lemma_bounds_include(
    ps: Seq<(u8, u8, u8, u8)>,
    w: u32,
    h: u32,
    k: int,
    bg_r: u8,
    bg_g: u8,
    bg_b: u8,
    t: bool,
    x: int,
    y: int,
)
    requires
        0 <= x < w,
        0 <= y < h,
        y * w + x < k <= w as int * h as int,
        is_content(ps[y * w + x], bg_r, bg_g, bg_b, t),
    ensures
        ({
            let (a, b, c, d) = content_bounds(ps, w, h, k, bg_r, bg_g, bg_b, t);
            a <= x <= b && c <= y <= d
        }),
    decreases k,
{
    lemma_grid_index(x, y, w as int, h as int);
    if k - 1 > y * w + x {
        lemma_bounds_include(ps, w, h, k - 1, bg_r, bg_g, bg_b, t, x, y);
    }
}

/// Cropping never cuts content: a visible pixel that differs from the
/// background color in any one channel (after undoing premultiplication),
/// or any visible pixel on a transparent background, lies within the
/// content bounds and appears, unchanged, in the cropped image.
pub proof fn law_crop_keeps_content(
    img: RasterView,
    bg_r: u8,
    bg_g: u8,
    bg_b: u8,
    transparent_bg: bool,
    pad: u32,
    x: int,
    y: int,
)
    requires
        img.pixels.len() == img.width as int * img.height as int,
        0 <= x < img.width,
        0 <= y < img.height,
        ({
            let p = img.pixels[y * img.width + x];
            p.3 > 0 && (transparent_bg || ((p.0 as int * 255 / p.3 as int) as u8) != bg_r || ((p.1 as int * 255
                / p.3 as int) as u8) != bg_g || ((p.2 as int * 255 / p.3 as int) as u8) != bg_b)
        }),
    ensures
        ({
            let (a, b, c, d) = content_bounds(
                img.pixels,
                img.width,
                img.height,
                img.width as int * img.height as int,
                bg_r,
                bg_g,
                bg_b,
                transparent_bg,
            );
            a <= x <= b && c <= y <= d
        }),
        ({
            let crop = spec_crop(img, bg_r, bg_g, bg_b, transparent_bg, pad);
            exists|cx: int, cy: int|
                0 <= cx < crop.width && 0 <= cy < crop.height && #[trigger] pixel_at(crop, cx, cy) == pixel_at(
                    img,
                    x,
                    y,
                )
        }),
{
    let w = img.width;
    let h = img.height;
    lemma_grid_index(x, y, w as int, h as int);
    lemma_bounds_include(img.pixels, w, h, w as int * h as int, bg_r, bg_g, bg_b, transparent_bg, x, y);
    let (x_min, x_max, y_min, y_max) = content_bounds(
        img.pixels,
        w,
        h,
        w as int * h as int,
        bg_r,
        bg_g,
        bg_b,
        transparent_bg,
    );
    lemma_content_bounds(img.pixels, w, h, w as int * h as int, bg_r, bg_g, bg_b, transparent_bg);
    let crop = spec_crop(img, bg_r, bg_g, bg_b, transparent_bg, pad);
    if x_min >= x_max || y_min >= y_max {
        assert(crop == img);
        assert(pixel_at(crop, x, y) == pixel_at(img, x, y));
    } else {
        let x0: int = if x_min >= pad { x_min - pad } else { 0 };
        let y0: int = if y_min >= pad { y_min - pad } else { 0 };
        let x1: int = if x_max + pad + 1 < w { x_max + pad + 1 } else { w as int };
        let y1: int = if y_max + pad + 1 < h { y_max + pad + 1 } else { h as int };
        let cw = x1 - x0;
        let ch = y1 - y0;
        assert(crop.width == cw && crop.height == ch);
        let cx = x - x0;
        let cy = y - y0;
        assert(0 <= cx < cw && 0 <= cy < ch);
        lemma_grid_index(cx, cy, cw, ch);
        let i = cy * cw + cx;
        assert(crop.pixels[i] == img.pixels[(y0 + i / cw) * w as int + x0 + i % cw]);
        assert((y0 + cy) * w as int + x0 + cx == y * w + x);
        assert(pixel_at(crop, cx, cy) == pixel_at(img, x, y));
    }
}

proof fn lemma_sub_of_prefix(x: Seq<u8>, y: Seq<u8>, i: int, j: int)
    requires
        0 <= i <= j <= x.len(),
    ensures
        (x + y).subrange(i, j) == x.subrange(i, j),
{
    assert((x + y).subrange(i, j) =~= x.subrange(i, j));
}

proof fn lemma_sub_of_last(x: Seq<u8>, y: Seq<u8>)
    ensures
        (x + y).subrange(x.len() as int, (x.len() + y.len()) as int) == y,
{
    assert((x + y).subrange(x.len() as int, (x.len() + y.len()) as int) =~= y);
}

/// Every offset in the cross-reference table is the byte position at which
/// its object's text starts, and `startxref` is that of the table.
pub proof fn law_pdf_offsets_locate_objects(w: u32, h: u32, iw: u32, ih: u32, data: Seq<u8>)
    ensures
        ({
            let doc = spec_pdf(w, h, iw, ih, data);
            let p0 = ascii("%PDF-1.4\n"@);
            let p1 = ascii("1 0 obj\n<< /Type /Catalog /Pages 2 0 R >>\nendobj\n"@);
            let p2 = ascii("2 0 obj\n<< /Type /Pages /Kids [3 0 R] /Count 1 >>\nendobj\n"@);
            let p3 = ascii(pdf_page(w, h));
            let p4 = ascii(pdf_image_head(iw, ih, data.len())) + data + ascii("\nendstream\nendobj\n"@);
            let p5 = ascii(pdf_content_object(w, h));
            let o1 = p0.len();
            let o2 = o1 + p1.len();
            let o3 = o2 + p2.len();
            let o4 = o3 + p3.len();
            let o5 = o4 + p4.len();
            let ox = o5 + p5.len();
            &&& doc.subrange(o1 as int, o2 as int) == p1
            &&& doc.subrange(o2 as int, o3 as int) == p2
            &&& doc.subrange(o3 as int, o4 as int) == p3
            &&& doc.subrange(o4 as int, o5 as int) == p4
            &&& doc.subrange(o5 as int, ox as int) == p5
            &&& doc.subrange(ox as int, (ox + ascii(pdf_xref(o1, o2, o3, o4, o5)).len()) as int) == ascii(
                pdf_xref(o1, o2, o3, o4, o5),
            )
        }),
{
    let p0 = ascii("%PDF-1.4\n"@);
    let p1 = ascii("1 0 obj\n<< /Type /Catalog /Pages 2 0 R >>\nendobj\n"@);
    let p2 = ascii("2 0 obj\n<< /Type /Pages /Kids [3 0 R] /Count 1 >>\nendobj\n"@);
    let p3 = ascii(pdf_page(w, h));
    let p4 = ascii(pdf_image_head(iw, ih, data.len())) + data + ascii("\nendstream\nendobj\n"@);
    let p5 = ascii(pdf_content_object(w, h));
    let o1 = p0.len();
    let o2 = o1 + p1.len();
    let o3 = o2 + p2.len();
    let o4 = o3 + p3.len();
    let o5 = o4 + p4.len();
    let ox = o5 + p5.len();
    let x = ascii(pdf_xref(o1, o2, o3, o4, o5));
    let t = ascii(pdf_trailer(ox));
    let l1 = p0 + p1;
    let l2 = l1 + p2;
    let l3 = l2 + p3;
    let l4 = l3 + p4;
    let l5 = l4 + p5;
    let l6 = l5 + x;
    let doc = l6 + t;
    assert(spec_pdf(w, h, iw, ih, data) == doc);
    lemma_sub_of_last(p0, p1);
    lemma_sub_of_last(l1, p2);
    lemma_sub_of_last(l2, p3);
    lemma_sub_of_last(l3, p4);
    lemma_sub_of_last(l4, p5);
    lemma_sub_of_last(l5, x);
    // object 1
    lemma_sub_of_prefix(l1, p2, o1 as int, o2 as int);
    lemma_sub_of_prefix(l2, p3, o1 as int, o2 as int);
    lemma_sub_of_prefix(l3, p4, o1 as int, o2 as int);
    lemma_sub_of_prefix(l4, p5, o1 as int, o2 as int);
    lemma_sub_of_prefix(l5, x, o1 as int, o2 as int);
    lemma_sub_of_prefix(l6, t, o1 as int, o2 as int);
    // object 2
    lemma_sub_of_prefix(l2, p3, o2 as int, o3 as int);
    lemma_sub_of_prefix(l3, p4, o2 as int, o3 as int);
    lemma_sub_of_prefix(l4, p5, o2 as int, o3 as int);
    lemma_sub_of_prefix(l5, x, o2 as int, o3 as int);
    lemma_sub_of_prefix(l6, t, o2 as int, o3 as int);
    // object 3
    lemma_sub_of_prefix(l3, p4, o3 as int, o4 as int);
    lemma_sub_of_prefix(l4, p5, o3 as int, o4 as int);
    lemma_sub_of_prefix(l5, x, o3 as int, o4 as int);
    lemma_sub_of_prefix(l6, t, o3 as int, o4 as int);
    // object 4
    lemma_sub_of_prefix(l4, p5, o4 as int, o5 as int);
    lemma_sub_of_prefix(l5, x, o4 as int, o5 as int);
    lemma_sub_of_prefix(l6, t, o4 as int, o5 as int);
    // object 5
    lemma_sub_of_prefix(l5, x, o5 as int, ox as int);
    lemma_sub_of_prefix(l6, t, o5 as int, ox as int);
    // cross-reference table
    lemma_sub_of_prefix(l6, t, ox as int, (ox + x.len()) as int);
}

/// The image stream of a raster's PDF holds three bytes per pixel.
pub proof fn law_pdf_rgb_length(img: RasterView)
    ensures
        rgb_data(img.pixels).len() == 3 * img.pixels.len(),
{
    lemma_rgb_data_len(img.pixels);
}

/// The page shows the image scaled to it: the content stream scales the
/// image by the width of the page's `/MediaBox` horizontally and by its
/// height vertically (`a 0 0 b 0 0 cm` for a `[0 0 a b]` box), and that box
/// is the image's own size.
pub proof fn law_pdf_image_fills_page(w: u32, h: u32)
    ensures
        exists|a: nat, b: nat, pre: Seq<char>, post: Seq<char>|
            {
                &&& pdf_page(w, h) == pre + "/MediaBox [0 0 "@ + decimal(a) + " "@ + decimal(b) + "]"@ + post
                &&& pdf_content(w, h) == decimal(a) + " 0 0 "@ + decimal(b) + " 0 0 cm /Img Do"@
                &&& a == w && b == h
            },
{
    reveal_strlit("3 0 obj\n<< /Type /Page /Parent 2 0 R /MediaBox [0 0 ");
    reveal_strlit("3 0 obj\n<< /Type /Page /Parent 2 0 R ");
    reveal_strlit("/MediaBox [0 0 ");
    reveal_strlit("] /Contents 5 0 R /Resources << /XObject << /Img 4 0 R >> >> >>\nendobj\n");
    reveal_strlit("]");
    reveal_strlit(" /Contents 5 0 R /Resources << /XObject << /Img 4 0 R >> >> >>\nendobj\n");
    let pre = "3 0 obj\n<< /Type /Page /Parent 2 0 R "@;
    let post = " /Contents 5 0 R /Resources << /XObject << /Img 4 0 R >> >> >>\nendobj\n"@;
    assert("3 0 obj\n<< /Type /Page /Parent 2 0 R /MediaBox [0 0 "@ =~= pre + "/MediaBox [0 0 "@);
    assert("] /Contents 5 0 R /Resources << /XObject << /Img 4 0 R >> >> >>\nendobj\n"@ =~= "]"@ + post);
    assert(pdf_page(w, h) =~= pre + "/MediaBox [0 0 "@ + decimal(w as nat) + " "@ + decimal(h as nat) + "]"@
        + post);
    assert(pdf_content(w, h) == decimal(w as nat) + " 0 0 "@ + decimal(h as nat) + " 0 0 cm /Img Do"@);
}

/// The EPS file declares the image's own size: its `%%BoundingBox` is
/// `0 0 w h`, and the first drawing line scales to the same `w h`.
pub proof fn law_eps_bounding_box_is_image_size(w: u32, h: u32, rgb: Seq<u8>)
    ensures
        exists|rest: Seq<char>|
            eps_text(w, h, rgb) == "%!PS-Adobe-3.0 EPSF-3.0\n"@ + "%%BoundingBox: 0 0 "@ + decimal(w as nat) + " "@
                + decimal(h as nat) + "\n"@ + "%%EndComments\n"@ + decimal(w as nat) + " "@ + decimal(h as nat)
                + " scale\n"@ + rest,
{
    reveal_strlit("%!PS-Adobe-3.0 EPSF-3.0\n%%BoundingBox: 0 0 ");
    reveal_strlit("%!PS-Adobe-3.0 EPSF-3.0\n");
    reveal_strlit("%%BoundingBox: 0 0 ");
    reveal_strlit("\n%%EndComments\n");
    reveal_strlit("\n");
    reveal_strlit("%%EndComments\n");
    let dw = decimal(w as nat);
    let dh = decimal(h as nat);
    let e = eps_text(w, h, rgb);
    let head = "%!PS-Adobe-3.0 EPSF-3.0\n"@ + "%%BoundingBox: 0 0 "@ + dw + " "@ + dh + "\n"@ + "%%EndComments\n"@ + dw
        + " "@ + dh + " scale\n"@;
    let rest = e.subrange(head.len() as int, e.len() as int);
    assert("%!PS-Adobe-3.0 EPSF-3.0\n%%BoundingBox: 0 0 "@ =~= "%!PS-Adobe-3.0 EPSF-3.0\n"@ + "%%BoundingBox: 0 0 "@);
    assert("\n%%EndComments\n"@ =~= "\n"@ + "%%EndComments\n"@);
    assert(e =~= head + rest);
}

/// The file formats a figure can be saved in.
#[derive(Debug, PartialEq, Eq, Clone, Copy)]
pub enum SaveFormat {
    Png,
    Svg,
    Pdf,
    Eps,
}

/// Why a path was refused for saving a figure.
#[derive(Debug, PartialEq, Eq, Clone, Copy)]
pub enum SavePathError {
    /// The path does not end in `.png`, `.svg`, `.pdf` or `.eps` (in any case).
    UnsupportedExtension,
    /// The path contains `..`.
    PathTraversal,
    /// The path is longer than 4096 bytes.
    PathTooLong,
}

/// `s` holds two dots in a row.
pub open spec fn has_dot_dot(s: Seq<char>) -> bool {
    exists|i: int| 0 <= i && i + 1 < s.len() && #[trigger] s[i] == '.' && s[i + 1] == '.'
}

/// The outcome of checking a save path: the extension (ignoring case) must
/// be one of the four formats, the path must not contain `..`, and it must be
/// at most 4096 bytes long (UTF-8); the format is that of the extension.
pub open spec fn spec_savefig_format(path: Seq<char>) -> Result<SaveFormat, SavePathError> {
    let lower = lowercase(path);
    if !(has_suffix(lower, ".png"@) || has_suffix(lower, ".svg"@) || has_suffix(lower, ".pdf"@)
        || has_suffix(lower, ".eps"@)) {
        Err(SavePathError::UnsupportedExtension)
    } else if has_dot_dot(path) {
        Err(SavePathError::PathTraversal)
    } else if encode_utf8(path).len() > 4096 {
        Err(SavePathError::PathTooLong)
    } else if has_suffix(lower, ".pdf"@) {
        Ok(SaveFormat::Pdf)
    } else if has_suffix(lower, ".svg"@) {
        Ok(SaveFormat::Svg)
    } else if has_suffix(lower, ".eps"@) {
        Ok(SaveFormat::Eps)
    } else {
        Ok(SaveFormat::Png)
    }
}

/// Whether a text holds two dots in a row.
fn contains_dot_dot(s: &str) -> (b: bool)
    ensures
        b == has_dot_dot(s@),
{
    let cs = chars_of(s);
    let n = cs.len();
    let mut i: usize = 0;
    while i < n
        invariant
            n == cs@.len(),
            cs@ == s@,
            i <= n,
            forall|j: int| 0 <= j < i && j + 1 < n ==> !(#[trigger] cs@[j] == '.' && cs@[j + 1] == '.'),
        decreases n - i,
    {
        if i + 1 < n && cs[i] == '.' && cs[i + 1] == '.' {
            assert(s@[i as int] == '.' && s@[i + 1] == '.');
            return true;
        }
        i += 1;
    }
    assert forall|j: int| 0 <= j && j + 1 < s@.len() implies !(#[trigger] s@[j] == '.' && s@[j + 1] == '.') by {
        assert(j < i);
    }
    false
}

proof fn lemma_encode_utf8_append(a: Seq<char>, b: Seq<char>)
    ensures
        encode_utf8(a + b) == encode_utf8(a) + encode_utf8(b),
    decreases a.len(),
{
    if a.len() == 0 {
        assert(a + b =~= b);
        assert(encode_utf8(a) + encode_utf8(b) =~= encode_utf8(b));
    } else {
        assert((a + b).drop_first() =~= a.drop_first() + b);
        assert((a + b)[0] == a[0]);
        lemma_encode_utf8_append(a.drop_first(), b);
        assert(encode_utf8(a + b) =~= encode_utf8(a) + encode_utf8(b));
    }
}

/// The number of bytes of a character in UTF-8.
fn utf8_width(c: char) -> (w: usize)
    ensures
        w as int == encode_scalar(c as u32).len(),
        1 <= w <= 4,
{
    proof {
        char_is_scalar(c);
    }
    let v = c as u32;
    if v <= 0x7f {
        1
    } else if v <= 0x7ff {
        2
    } else if v <= 0xffff {
        3
    } else {
        4
    }
}

/// Whether a text takes more than `limit` bytes in UTF-8.
fn utf8_len_exceeds(s: &str, limit: usize) -> (b: bool)
    requires
        limit <= 4096,
    ensures
        b == (encode_utf8(s@).len() > limit),
{
    let cs = chars_of(s);
    let n = cs.len();
    let mut total: usize = 0;
    let mut i: usize = 0;
    while i < n
        invariant
            n == cs@.len(),
            cs@ == s@,
            i <= n,
            limit <= 4096,
            total <= limit,
            total as int == encode_utf8(cs@.take(i as int)).len(),
        decreases n - i,
    {
        let w = utf8_width(cs[i]);
        proof {
            let c = cs@[i as int];
            assert(cs@.take(i + 1) =~= cs@.take(i as int) + seq![c]);
            lemma_encode_utf8_append(cs@.take(i as int), seq![c]);
            char_is_scalar(c);
            assert(seq![c].drop_first() =~= Seq::<char>::empty());
            assert(seq![c][0] == c);
            assert(encode_utf8(Seq::<char>::empty()) =~= Seq::<u8>::empty());
            assert(encode_utf8(seq![c]) =~= encode_scalar(c as u32));
            assert(cs@ =~= cs@.take(i + 1) + cs@.skip(i + 1));
            lemma_encode_utf8_append(cs@.take(i + 1), cs@.skip(i + 1));
        }
        if total + w > limit {
            return true;
        }
        total = total + w;
        i += 1;
    }
    assert(cs@.take(n as int) =~= cs@);
    false
}

/// Check a path for saving a figure and pick its format from the extension.
pub fn savefig_format(path: &str) -> (r: Result<SaveFormat, SavePathError>)
    ensures
        r == spec_savefig_format(path@),
{
    let lower = to_lowercase(path);
    let l = lower.as_str();
    if !(ends_with(l, ".png") || ends_with(l, ".svg") || ends_with(l, ".pdf") || ends_with(l, ".eps")) {
        return Err(SavePathError::UnsupportedExtension);
    }
    if contains_dot_dot(path) {
        return Err(SavePathError::PathTraversal);
    }
    if utf8_len_exceeds(path, 4096) {
        return Err(SavePathError::PathTooLong);
    }
    if ends_with(l, ".pdf") {
        Ok(SaveFormat::Pdf)
    } else if ends_with(l, ".svg") {
        Ok(SaveFormat::Svg)
    } else if ends_with(l, ".eps") {
        Ok(SaveFormat::Eps)
    } else {
        Ok(SaveFormat::Png)
    }
}

} // verus!
