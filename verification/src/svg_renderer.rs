//! Native SVG renderer that assembles real vector SVG elements into a document.
use vstd::prelude::*;
use crate::colors::Color;
use crate::numtext::{decimal, push_decimal};
use crate::strs::{has_prefix, push_char, starts_with};

verus! {

broadcast use vstd::string::group_string_axioms;

/// An SVG document being built: its size and its elements in order.
pub struct SvgRenderer {
    pub width: u32,
    pub height: u32,
    pub elements: Vec<String>,
}

/// A definition element (clip path), which goes into `<defs>`.
pub open spec fn is_clip_element(e: Seq<char>) -> bool {
    has_prefix(e, "<clipPath"@)
}

/// The definition elements of `es`, in order, one per line.
pub open spec fn def_lines(es: Seq<Seq<char>>) -> Seq<char>
    decreases es.len(),
{
    if es.len() == 0 {
        seq![]
    } else if is_clip_element(es.last()) {
        def_lines(es.drop_last()) + es.last() + seq!['\n']
    } else {
        def_lines(es.drop_last())
    }
}

/// The drawing elements of `es` (all but definitions), in order, one per line.
pub open spec fn body_lines(es: Seq<Seq<char>>) -> Seq<char>
    decreases es.len(),
{
    if es.len() == 0 {
        seq![]
    } else if is_clip_element(es.last()) {
        body_lines(es.drop_last())
    } else {
        body_lines(es.drop_last()) + es.last() + seq!['\n']
    }
}

/// The first lines of a document of size `w` x `h`: the XML prolog, the
/// `<svg>` root, a background rectangle filled with `bg`, and the opening of
/// `<defs>`.
pub open spec fn svg_head_lines(w: u32, h: u32, bg: Seq<char>) -> Seq<Seq<char>> {
    seq![
        "<?xml version=\"1.0\" encoding=\"UTF-8\"?>"@,
        "<svg xmlns=\"http://www.w3.org/2000/svg\" width=\""@ + decimal(w as nat) + "\" height=\""@
            + decimal(h as nat) + "\" viewBox=\"0 0 "@ + decimal(w as nat) + " "@ + decimal(h as nat) + "\">"@,
        "<rect width=\"100%\" height=\"100%\" fill=\""@ + bg + "\"/>"@,
        "<defs>"@,
    ]
}

/// The head of the document: its first lines, each ended by a line break.
pub open spec fn svg_header(w: u32, h: u32, bg: Seq<char>) -> Seq<char> {
    lines_text(svg_head_lines(w, h, bg))
}

/// The whole document: header, definitions, then the drawing elements.
pub open spec fn svg_document(w: u32, h: u32, bg: Seq<char>, es: Seq<Seq<char>>) -> Seq<char> {
    svg_header(w, h, bg) + def_lines(es) + "</defs>"@ + seq!['\n'] + body_lines(es) + "</svg>"@
}

/// The opening tag of a group, clipped by the clip path `id` when given.
pub open spec fn group_open(clip_id: Option<Seq<char>>) -> Seq<char> {
    match clip_id {
        Some(id) => "<g clip-path=\"url(#"@ + id + ")\">"@,
        None => "<g>"@,
    }
}

/// A text with the XML special characters `&`, `<`, `>` and `"` escaped.
pub open spec fn escaped(s: Seq<char>) -> Seq<char>
    decreases s.len(),
{
    if s.len() == 0 {
        seq![]
    } else {
        escaped(s.drop_last()) + escape_char(s.last())
    }
}

/// The escape of one character.
pub open spec fn escape_char(c: char) -> Seq<char> {
    if c == '&' {
        "&amp;"@
    } else if c == '<' {
        "&lt;"@
    } else if c == '>' {
        "&gt;"@
    } else if c == '"' {
        "&quot;"@
    } else {
        seq![c]
    }
}

/// An SVG color text `rgb(r,g,b)` (alpha is not part of it).
pub open spec fn svg_color(c: Color) -> Seq<char> {
    "rgb("@ + decimal(c.r as nat) + ","@ + decimal(c.g as nat) + ","@ + decimal(c.b as nat) + ")"@
}

/// The lines `ls`, each followed by a line break.
pub open spec fn lines_text(ls: Seq<Seq<char>>) -> Seq<char>
    decreases ls.len(),
{
    if ls.len() == 0 {
        seq![]
    } else {
        lines_text(ls.drop_last()) + ls.last() + seq!['\n']
    }
}

/// The lines `ls` joined by line breaks.
pub open spec fn joined(ls: Seq<Seq<char>>) -> Seq<char> {
    if ls.len() == 0 {
        seq![]
    } else {
        lines_text(ls.drop_last()) + ls.last()
    }
}

/// The lines of an SVG document of size `w` x `h` with background `bg`:
/// the XML prolog, the `<svg>` root, the background rectangle, `<defs>`, the
/// clip paths in order, `</defs>`, the other elements in order, `</svg>`.
pub open spec fn svg_lines(w: u32, h: u32, bg: Seq<char>, es: Seq<Seq<char>>) -> Seq<Seq<char>> {
    svg_head_lines(w, h, bg) + es.filter(|e: Seq<char>| is_clip_element(e)) + seq!["</defs>"@] + es.filter(
        |e: Seq<char>| !is_clip_element(e),
    ) + seq!["</svg>"@]
}

proof fn lemma_lines_text_append(a: Seq<Seq<char>>, b: Seq<Seq<char>>)
    ensures
        lines_text(a + b) == lines_text(a) + lines_text(b),
    decreases b.len(),
{
    if b.len() == 0 {
        assert(a + b =~= a);
        assert(lines_text(a) + lines_text(b) =~= lines_text(a));
    } else {
        assert((a + b).drop_last() =~= a + b.drop_last());
        lemma_lines_text_append(a, b.drop_last());
        assert(lines_text(a + b) =~= lines_text(a) + lines_text(b));
    }
}

proof fn lemma_def_lines_filter(es: Seq<Seq<char>>)
    ensures
        def_lines(es) == lines_text(es.filter(|e: Seq<char>| is_clip_element(e))),
        body_lines(es) == lines_text(es.filter(|e: Seq<char>| !is_clip_element(e))),
    decreases es.len(),
{
    reveal(Seq::filter);
    if es.len() > 0 {
        lemma_def_lines_filter(es.drop_last());
        let f1 = es.drop_last().filter(|e: Seq<char>| is_clip_element(e));
        let f2 = es.drop_last().filter(|e: Seq<char>| !is_clip_element(e));
        assert(f1.push(es.last()).drop_last() =~= f1);
        assert(f2.push(es.last()).drop_last() =~= f2);
    }
}

/// The SVG document is its lines joined by line breaks: the prolog, the root
/// element and the background, then `<defs>` holding the clip paths in the
/// order they were added, then every other element in the order it was
/// added, and `</svg>` last.
pub proof fn law_svg_document_lines(w: u32, h: u32, bg: Seq<char>, es: Seq<Seq<char>>)
    ensures
        svg_document(w, h, bg, es) == joined(svg_lines(w, h, bg, es)),
{
    let defs = es.filter(|e: Seq<char>| is_clip_element(e));
    let body = es.filter(|e: Seq<char>| !is_clip_element(e));
    let head = svg_head_lines(w, h, bg);
    let close = seq!["</defs>"@];
    let ls = svg_lines(w, h, bg, es);
    let mid = head + defs + close + body;
    assert(ls == mid + seq!["</svg>"@]);
    assert(ls.drop_last() =~= mid);
    lemma_def_lines_filter(es);
    lemma_lines_text_append(head + defs + close, body);
    lemma_lines_text_append(head + defs, close);
    lemma_lines_text_append(head, defs);
    assert(close.drop_last() =~= Seq::<Seq<char>>::empty());
    assert(lines_text(Seq::<Seq<char>>::empty()) == Seq::<char>::empty());
    assert(close.last() == "</defs>"@);
    assert(lines_text(close) =~= "</defs>"@ + seq!['\n']);
    assert(svg_document(w, h, bg, es) =~= joined(ls));
}

/// What an `SvgRenderer` holds: the document size and the elements added so
/// far, in order.
pub struct SvgDoc {
    pub width: u32,
    pub height: u32,
    pub elements: Seq<Seq<char>>,
}

impl View for SvgRenderer {
    type V = SvgDoc;

    open spec fn view(&self) -> SvgDoc {
        SvgDoc { width: self.width, height: self.height, elements: self.elements@.map_values(|e: String| e@) }
    }
}

impl SvgRenderer {

    pub fn new(width: u32, height: u32) -> (r: Self)
        ensures
            r@.width == width,
            r@.height == height,
            r@.elements == Seq::<Seq<char>>::empty(),
    {
        let r = Self { width, height, elements: Vec::new() };
        assert(r@.elements =~= Seq::<Seq<char>>::empty());
        r
    }

    /// The document's width.
    pub fn width(&self) -> (w: u32)
        ensures
            w == self@.width,
    {
        self.width
    }

    /// The document's height.
    pub fn height(&self) -> (h: u32)
        ensures
            h == self@.height,
    {
        self.height
    }

    /// Append one finished element.
    pub fn add_element(&mut self, element: String)
        ensures
            final(self)@.width == old(self)@.width,
            final(self)@.height == old(self)@.height,
            final(self)@.elements == old(self)@.elements.push(element@),
    {
        let ghost e = element@;
        self.elements.push(element);
        assert(self@.elements =~= old(self)@.elements.push(e));
    }

    /// Open a group, clipped by the clip path `clip_id` when one is given.
    pub fn begin_group(&mut self, clip_id: Option<&str>)
        ensures
            final(self)@.width == old(self)@.width,
            final(self)@.height == old(self)@.height,
            final(self)@.elements == old(self)@.elements.push(
                group_open(
                    match clip_id {
                        Some(id) => Some(id@),
                        None => None,
                    },
                ),
            ),
    {
        let mut s = String::new();
        match clip_id {
            Some(id) => {
                s.append("<g clip-path=\"url(#");
                s.append(id);
                s.append(")\">");
            },
            None => {
                s.append("<g>");
            },
        }
        self.add_element(s);
    }

    /// Close the innermost group.
    pub fn end_group(&mut self)
        ensures
            final(self)@.width == old(self)@.width,
            final(self)@.height == old(self)@.height,
            final(self)@.elements == old(self)@.elements.push("</g>"@),
    {
        let mut s = String::new();
        s.append("</g>");
        self.add_element(s);
    }

    /// The SVG document with background color `bg_color`: clip paths inside
    /// `<defs>`, then all other elements, each on a line of its own.
    pub fn to_svg(&self, bg_color: &str) -> (svg: String)
        ensures
            svg@ == svg_document(self@.width, self@.height, bg_color@, self@.elements),
            svg@ == joined(svg_lines(self@.width, self@.height, bg_color@, self@.elements)),
    {
        proof {
            law_svg_document_lines(self.width, self.height, bg_color@, self@.elements);
        }
        let mut svg = String::new();
        svg.append("<?xml version=\"1.0\" encoding=\"UTF-8\"?>");
        push_char(&mut svg, '\n');
        let ghost l0 = svg@;
        svg.append("<svg xmlns=\"http://www.w3.org/2000/svg\" width=\"");
        push_decimal(&mut svg, self.width as u64);
        svg.append("\" height=\"");
        push_decimal(&mut svg, self.height as u64);
        svg.append("\" viewBox=\"0 0 ");
        push_decimal(&mut svg, self.width as u64);
        svg.append(" ");
        push_decimal(&mut svg, self.height as u64);
        svg.append("\">");
        push_char(&mut svg, '\n');
        let ghost l1 = svg@;
        svg.append("<rect width=\"100%\" height=\"100%\" fill=\"");
        svg.append(bg_color);
        svg.append("\"/>");
        push_char(&mut svg, '\n');
        let ghost l2 = svg@;
        svg.append("<defs>");
        push_char(&mut svg, '\n');
        proof {
            let hl = svg_head_lines(self.width, self.height, bg_color@);
            assert(hl.drop_last().drop_last().drop_last().drop_last() =~= Seq::<Seq<char>>::empty());
            assert(hl.drop_last().drop_last().drop_last() =~= seq![hl[0]]);
            assert(hl.drop_last().drop_last() =~= seq![hl[0], hl[1]]);
            assert(hl.drop_last() =~= seq![hl[0], hl[1], hl[2]]);
            assert(seq![hl[0]].drop_last() =~= Seq::<Seq<char>>::empty());
            assert(lines_text(Seq::<Seq<char>>::empty()) == Seq::<char>::empty());
            assert(l0 =~= lines_text(seq![hl[0]]));
            assert(l1 =~= lines_text(seq![hl[0], hl[1]]));
            assert(l2 =~= lines_text(seq![hl[0], hl[1], hl[2]]));
            assert(svg@ =~= svg_header(self.width, self.height, bg_color@));
        }

        let ghost es = self@.elements;
        let mut defs = String::new();
        let mut body = String::new();
        let n = self.elements.len();
        let mut i: usize = 0;
        while i < n
            invariant
                n == self.elements@.len(),
                es == self@.elements,
                i <= n,
                defs@ == def_lines(es.take(i as int)),
                body@ == body_lines(es.take(i as int)),
            decreases n - i,
        {
            let elem = self.elements[i].as_str();
            assert(es.take(i + 1).drop_last() =~= es.take(i as int));
            assert(es.take(i + 1).last() == elem@);
            if starts_with(elem, "<clipPath") {
                defs.append(elem);
                push_char(&mut defs, '\n');
            } else {
                body.append(elem);
                push_char(&mut body, '\n');
            }
            i += 1;
        }
        assert(es.take(n as int) =~= es);
        svg.append(defs.as_str());
        svg.append("</defs>");
        push_char(&mut svg, '\n');
        svg.append(body.as_str());
        svg.append("</svg>");
        svg
    }
}

/// Escape the XML special characters of a text (`&`, `<`, `>`, `"`).
pub fn escape_text(text: &str) -> (r: String)
    ensures
        r@ == escaped(text@),
{
    let s = crate::strs::chars_of(text);
    let n = s.len();
    let mut r = String::new();
    let mut i: usize = 0;
    while i < n
        invariant
            n == s@.len(),
            s@ == text@,
            i <= n,
            r@ == escaped(s@.take(i as int)),
        decreases n - i,
    {
        let c = s[i];
        assert(s@.take(i + 1).drop_last() =~= s@.take(i as int));
        if c == '&' {
            r.append("&amp;");
        } else if c == '<' {
            r.append("&lt;");
        } else if c == '>' {
            r.append("&gt;");
        } else if c == '"' {
            r.append("&quot;");
        } else {
            push_char(&mut r, c);
        }
        i += 1;
    }
    assert(s@.take(n as int) =~= s@);
    r
}

/// Helper: convert a Color to an SVG color string.
pub fn color_to_svg(c: &Color) -> (s: String)
    ensures
        s@ == svg_color(*c),
{
    let mut s = String::new();
    s.append("rgb(");
    push_decimal(&mut s, c.r as u64);
    s.append(",");
    push_decimal(&mut s, c.g as u64);
    s.append(",");
    push_decimal(&mut s, c.b as u64);
    s.append(")");
    s
}

/// No character of `s` needs escaping.
pub open spec fn has_no_markup(s: Seq<char>) -> bool {
    forall|i: int| 0 <= i < s.len() ==> {
        let c = #[trigger] s[i];
        c != '&' && c != '<' && c != '>' && c != '"'
    }
}

/// Escaping leaves text without special characters unchanged.
pub proof fn law_escape_plain_text(s: Seq<char>)
    requires
        has_no_markup(s),
    ensures
        escaped(s) == s,
    decreases s.len(),
{
    if s.len() > 0 {
        let p = s.drop_last();
        assert forall|i: int| 0 <= i < p.len() implies {
            let c = #[trigger] p[i];
            c != '&' && c != '<' && c != '>' && c != '"'
        } by {
            assert(p[i] == s[i]);
        }
        law_escape_plain_text(p);
        let c = s.last();
        assert(c == s[s.len() - 1]);
        assert(escaped(s) =~= s);
    }
}

/// Escaped text holds no `<`, `>` or `"`, so it cannot open or close a tag
/// or an attribute.
pub proof fn law_escaped_has_no_tag_chars(s: Seq<char>)
    ensures
        forall|i: int| 0 <= i < escaped(s).len() ==> {
            let c = #[trigger] escaped(s)[i];
            c != '<' && c != '>' && c != '"'
        },
    decreases s.len(),
{
    reveal_strlit("&amp;");
    reveal_strlit("&lt;");
    reveal_strlit("&gt;");
    reveal_strlit("&quot;");
    if s.len() > 0 {
        law_escaped_has_no_tag_chars(s.drop_last());
        let p = escaped(s.drop_last());
        let e = escape_char(s.last());
        assert(escaped(s) == p + e);
        assert forall|i: int| 0 <= i < escaped(s).len() implies {
            let c = #[trigger] escaped(s)[i];
            c != '<' && c != '>' && c != '"'
        } by {
            if i < p.len() {
                assert(escaped(s)[i] == p[i]);
            } else {
                assert(escaped(s)[i] == e[i - p.len()]);
            }
        }
    }
}

} // verus!
