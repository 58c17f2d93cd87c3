//! Plot argument parsing: matplotlib-style format strings like `"r--o"`,
//! color shorthands, and the grouping of positional plot arguments.
use vstd::prelude::*;
use crate::strs::{chars_of, push_char, str_eq};
use vstd::utf8::char_u32_cast;
use crate::numtext::{decimal, hex2, hex_digit_upper, push_decimal, push_hex2};

verus! {

broadcast use vstd::string::group_string_axioms;

/// The one-letter color codes of a format string.
pub open spec fn is_color_code(c: char) -> bool {
    c == 'r' || c == 'g' || c == 'b' || c == 'c' || c == 'm' || c == 'y' || c == 'k' || c == 'w'
}

/// The marker codes of a format string.
pub open spec fn is_marker_code(c: char) -> bool {
    c == '.' || c == 'o' || c == 's' || c == '^' || c == 'v' || c == '+' || c == 'x' || c == 'D'
        || c == '*' || c == '<' || c == '>' || c == 'p' || c == 'h' || c == 'H' || c == '8' || c == '|'
        || c == '_' || c == 'P' || c == 'X' || c == '1' || c == '2' || c == '3' || c == '4' || c == 'd'
}

/// `p` occurs in `t` at index `i`.
pub open spec fn occurs_at(t: Seq<char>, p: Seq<char>, i: int) -> bool {
    0 <= i && i + p.len() <= t.len() && t.subrange(i, i + p.len()) == p
}

/// The first index at or after `i` where `p` occurs in `t`.
pub open spec fn find_from(t: Seq<char>, p: Seq<char>, i: int) -> Option<int>
    decreases t.len() + 1 - i,
{
    if i < 0 || i + p.len() > t.len() {
        None
    } else if occurs_at(t, p, i) {
        Some(i)
    } else {
        find_from(t, p, i + 1)
    }
}

/// `t` without the `k` characters at index `i`.
pub open spec fn cut(t: Seq<char>, i: int, k: int) -> Seq<char> {
    t.subrange(0, i) + t.subrange(i + k, t.len() as int)
}

/// The first line style (tried longest first: `--`, `-.`, `:`, `-`) found
/// in `rem`, and `rem` with its first occurrence removed.
pub open spec fn take_linestyle(rem: Seq<char>) -> (Option<Seq<char>>, Seq<char>) {
    if find_from(rem, "--"@, 0) is Some {
        (Some("--"@), cut(rem, find_from(rem, "--"@, 0)->0, 2))
    } else if find_from(rem, "-."@, 0) is Some {
        (Some("-."@), cut(rem, find_from(rem, "-."@, 0)->0, 2))
    } else if find_from(rem, ":"@, 0) is Some {
        (Some(":"@), cut(rem, find_from(rem, ":"@, 0)->0, 1))
    } else if find_from(rem, "-"@, 0) is Some {
        (Some("-"@), cut(rem, find_from(rem, "-"@, 0)->0, 1))
    } else {
        (None, rem)
    }
}

/// The first marker code in `t` from index `i` on.
pub open spec fn first_marker(t: Seq<char>, i: int) -> Option<char>
    decreases t.len() - i,
{
    if i < 0 || i >= t.len() {
        None
    } else if is_marker_code(t[i]) {
        Some(t[i])
    } else {
        first_marker(t, i + 1)
    }
}

/// The (color, line style, marker) of a format string: a leading color code,
/// the first line style in what follows, and the first marker code in what is
/// left once that line style is removed.
pub open spec fn spec_parse_fmt(f: Seq<char>) -> (Option<Seq<char>>, Option<Seq<char>>, Option<Seq<char>>) {
    let has_color = f.len() > 0 && is_color_code(f[0]);
    let color = if has_color {
        Some(seq![f[0]])
    } else {
        None
    };
    let rem = if has_color {
        f.drop_first()
    } else {
        f
    };
    let (ls, rem2) = take_linestyle(rem);
    let marker = match first_marker(rem2, 0) {
        Some(c) => Some(seq![c]),
        None => None,
    };
    (color, ls, marker)
}

/// A character as it stands inside a JSON string: `"` and `\` behind a
/// backslash, control characters as `\u00XX`, any other character as itself.
pub open spec fn json_escape_char(c: char) -> Seq<char> {
    if c == '"' {
        seq!['\\', '"']
    } else if c == '\\' {
        seq!['\\', '\\']
    } else if (c as u32) < 0x20 {
        seq!['\\', 'u', '0', '0'] + hex2((c as u32) as u8)
    } else {
        seq![c]
    }
}

/// The characters of `s`, each escaped for a JSON string.
pub open spec fn json_escaped(s: Seq<char>) -> Seq<char>
    decreases s.len(),
{
    if s.len() == 0 {
        seq![]
    } else {
        json_escape_char(s[0]) + json_escaped(s.drop_first())
    }
}

/// `s` as a JSON string literal.
pub open spec fn json_string(s: Seq<char>) -> Seq<char> {
    seq!['"'] + json_escaped(s) + seq!['"']
}

proof fn lemma_json_escaped_push(s: Seq<char>, c: char)
    ensures
        json_escaped(s.push(c)) == json_escaped(s) + json_escape_char(c),
    decreases s.len(),
{
    if s.len() == 0 {
        assert(s.push(c).drop_first() =~= Seq::<char>::empty());
        assert(s.push(c)[0] == c);
        assert(json_escaped(Seq::<char>::empty()) == Seq::<char>::empty());
        assert(json_escaped(s.push(c)) =~= json_escaped(s) + json_escape_char(c));
    } else {
        assert(s.push(c).drop_first() =~= s.drop_first().push(c));
        lemma_json_escaped_push(s.drop_first(), c);
        assert(s.push(c)[0] == s[0]);
        assert(json_escaped(s.push(c)) =~= json_escaped(s) + json_escape_char(c));
    }
}

/// An escaped JSON string holds no raw control character.
pub proof fn law_json_escaped_has_no_control_chars(s: Seq<char>)
    ensures
        forall|i: int| 0 <= i < json_escaped(s).len() ==> (#[trigger] json_escaped(s)[i] as u32) >= 0x20,
    decreases s.len(),
{
    if s.len() > 0 {
        law_json_escaped_has_no_control_chars(s.drop_first());
        let e = json_escape_char(s[0]);
        let r = json_escaped(s.drop_first());
        assert(json_escaped(s) == e + r);
        assert forall|i: int| 0 <= i < json_escaped(s).len() implies (#[trigger] json_escaped(s)[i] as u32) >= 0x20 by {
            if i < e.len() {
                assert(json_escaped(s)[i] == e[i]);
                let b = (s[0] as u32) as u8;
                assert(hex_digit_upper((b / 16) as nat) as u32 >= 0x30);
                assert(hex_digit_upper((b % 16) as nat) as u32 >= 0x30);
            } else {
                assert(json_escaped(s)[i] == r[i - e.len()]);
            }
        }
    }
}

proof fn lemma_hex2_injective(a: u8, b: u8)
    requires
        hex2(a) == hex2(b),
    ensures
        a == b,
{
    assert(hex2(a)[0] == hex2(b)[0]);
    assert(hex2(a)[1] == hex2(b)[1]);
}

/// Escaping loses nothing: two texts with the same escaped form are equal,
/// so a JSON reader gets back exactly the text that was written.
pub proof fn law_json_escaped_injective(s: Seq<char>, t: Seq<char>)
    requires
        json_escaped(s) == json_escaped(t),
    ensures
        s == t,
    decreases s.len(),
{
    if s.len() == 0 {
        if t.len() > 0 {
            assert(json_escaped(t).len() >= json_escape_char(t[0]).len());
        }
        assert(s =~= t);
    } else {
        if t.len() == 0 {
            assert(json_escaped(s).len() >= json_escape_char(s[0]).len());
        }
        let es = json_escape_char(s[0]);
        let et = json_escape_char(t[0]);
        let e = json_escaped(s);
        assert(e == es + json_escaped(s.drop_first()));
        assert(e == et + json_escaped(t.drop_first()));
        assert(e[0] == es[0] && e[0] == et[0]);
        if es.len() > 1 {
            assert(e[1] == es[1] && e[1] == et[1]);
        }
        let cs = s[0];
        let ct = t[0];
        if e[0] != '\\' {
            assert(es == seq![cs]);
            assert(et == seq![ct]);
        } else if e[1] == '"' {
            assert(cs == '"' && ct == '"');
        } else if e[1] == '\\' {
            assert(cs == '\\' && ct == '\\');
        } else {
            assert((cs as u32) < 0x20 && (ct as u32) < 0x20);
            assert(e[4] == es[4] && e[4] == et[4]);
            assert(e[5] == es[5] && e[5] == et[5]);
            assert(hex2((cs as u32) as u8) =~= hex2((ct as u32) as u8));
            lemma_hex2_injective((cs as u32) as u8, (ct as u32) as u8);
            assert((cs as u32) == (ct as u32));
            char_u32_cast(cs, cs as u32);
            char_u32_cast(ct, ct as u32);
        }
        assert(s[0] == t[0]);
        assert(es == et);
        assert(json_escaped(s.drop_first()) =~= e.subrange(es.len() as int, e.len() as int));
        assert(json_escaped(t.drop_first()) =~= e.subrange(et.len() as int, e.len() as int));
        law_json_escaped_injective(s.drop_first(), t.drop_first());
        assert(s =~= seq![s[0]] + s.drop_first());
        assert(t =~= seq![t[0]] + t.drop_first());
    }
}

/// Append `s` as a JSON string literal.
fn push_json_string(out: &mut String, s: &str)
    ensures
        final(out)@ == old(out)@ + json_string(s@),
{
    let cs = chars_of(s);
    let n = cs.len();
    push_char(out, '"');
    let ghost start = out@;
    let mut i: usize = 0;
    while i < n
        invariant
            n == cs@.len(),
            cs@ == s@,
            i <= n,
            out@ == start + json_escaped(cs@.take(i as int)),
        decreases n - i,
    {
        let c = cs[i];
        proof {
            assert(cs@.take(i + 1) =~= cs@.take(i as int).push(c));
            lemma_json_escaped_push(cs@.take(i as int), c);
        }
        let ghost before = out@;
        if c == '"' {
            push_char(out, '\\');
            push_char(out, '"');
        } else if c == '\\' {
            push_char(out, '\\');
            push_char(out, '\\');
        } else if (c as u32) < 0x20 {
            push_char(out, '\\');
            push_char(out, 'u');
            push_char(out, '0');
            push_char(out, '0');
            push_hex2(out, c as u32 as u8);
        } else {
            push_char(out, c);
        }
        assert(out@ =~= before + json_escape_char(c));
        i += 1;
    }
    assert(cs@.take(n as int) =~= cs@);
    push_char(out, '"');
    assert(out@ =~= old(out)@ + json_string(s@));
}

/// The text of an optional string.
pub open spec fn opt_view(o: Option<String>) -> Option<Seq<char>> {
    match o {
        Some(s) => Some(s@),
        None => None,
    }
}

fn color_code(c: char) -> (b: bool)
    ensures
        b == is_color_code(c),
{
    c == 'r' || c == 'g' || c == 'b' || c == 'c' || c == 'm' || c == 'y' || c == 'k' || c == 'w'
}

fn marker_code(c: char) -> (b: bool)
    ensures
        b == is_marker_code(c),
{
    c == '.' || c == 'o' || c == 's' || c == '^' || c == 'v' || c == '+' || c == 'x' || c == 'D'
        || c == '*' || c == '<' || c == '>' || c == 'p' || c == 'h' || c == 'H' || c == '8' || c == '|'
        || c == '_' || c == 'P' || c == 'X' || c == '1' || c == '2' || c == '3' || c == '4' || c == 'd'
}

/// Whether `p` occurs in `t` at index `i`.
fn matches_at(t: &Vec<char>, p: &Vec<char>, i: usize) -> (b: bool)
    requires
        i + p@.len() <= t@.len(),
    ensures
        b == occurs_at(t@, p@, i as int),
{
    let tl = t.len();
    let mut k: usize = 0;
    while k < p.len()
        invariant
            i + p@.len() <= t@.len(),
            tl == t@.len(),
            k <= p@.len(),
            forall|j: int| 0 <= j < k ==> t@[i + j] == p@[j],
        decreases p@.len() - k,
    {
        if t[i + k] != p[k] {
            assert(t@.subrange(i as int, i + p@.len())[k as int] != p@[k as int]);
            return false;
        }
        k += 1;
    }
    assert(t@.subrange(i as int, i + p@.len()) =~= p@);
    true
}

/// The first index where `p` occurs in `t`.
fn find(t: &Vec<char>, p: &Vec<char>) -> (r: Option<usize>)
    ensures
        r matches Some(i) ==> find_from(t@, p@, 0) == Some(i as int),
        r is None ==> find_from(t@, p@, 0) is None,
{
    if p.len() > t.len() {
        return None;
    }
    let last = t.len() - p.len();
    let mut i: usize = 0;
    loop
        invariant
            last + p@.len() == t@.len(),
            i <= last,
            find_from(t@, p@, 0) == find_from(t@, p@, i as int),
        decreases last - i,
    {
        if matches_at(t, p, i) {
            return Some(i);
        }
        if i == last {
            assert(find_from(t@, p@, i + 1) is None);
            return None;
        }
        i += 1;
    }
}

/// `t` without the `k` characters at index `i`.
fn cut_vec(t: &Vec<char>, i: usize, k: usize) -> (r: Vec<char>)
    requires
        i + k <= t@.len(),
    ensures
        r@ == cut(t@, i as int, k as int),
{
    let mut r: Vec<char> = Vec::new();
    let mut j: usize = 0;
    while j < t.len()
        invariant
            i + k <= t@.len(),
            j <= t@.len(),
            r@ == (if j <= i {
                t@.subrange(0, j as int)
            } else if j <= i + k {
                t@.subrange(0, i as int)
            } else {
                t@.subrange(0, i as int) + t@.subrange(i + k, j as int)
            }),
        decreases t@.len() - j,
    {
        if j < i || j >= i + k {
            r.push(t[j]);
        }
        proof {
            if j < i {
                assert(r@ =~= t@.subrange(0, j + 1));
            } else if j >= i + k {
                assert(r@ =~= t@.subrange(0, i as int) + t@.subrange(i + k, j + 1));
            }
        }
        j += 1;
    }
    proof {
        if t@.len() <= i {
            assert(i == t@.len() && k == 0);
        }
        assert(r@ =~= cut(t@, i as int, k as int));
    }
    r
}

/// Try one line style: when it occurs in `rem`, remove its first occurrence.
fn try_linestyle(rem: &Vec<char>, ls: &str) -> (r: Option<Vec<char>>)
    ensures
        r matches Some(v) ==> find_from(rem@, ls@, 0) is Some && v@ == cut(
            rem@,
            find_from(rem@, ls@, 0)->0,
            ls@.len() as int,
        ),
        r is None ==> find_from(rem@, ls@, 0) is None,
{
    let p = chars_of(ls);
    match find(rem, &p) {
        Some(i) => {
            proof {
                lemma_find_from_bounds(rem@, p@, 0);
            }
            Some(cut_vec(rem, i, p.len()))
        },
        None => None,
    }
}

proof fn lemma_find_from_bounds(t: Seq<char>, p: Seq<char>, i: int)
    ensures
        find_from(t, p, i) matches Some(j) ==> i <= j && j + p.len() <= t.len(),
    decreases t.len() + 1 - i,
{
    if !(i < 0 || i + p.len() > t.len()) && !occurs_at(t, p, i) {
        lemma_find_from_bounds(t, p, i + 1);
    }
}

/// A one-character string.
fn char_string(c: char) -> (s: String)
    ensures
        s@ == seq![c],
{
    let mut s = String::new();
    push_char(&mut s, c);
    s
}

/// Parse a matplotlib format string like `"r--o"` into (color, linestyle, marker).
pub fn parse_fmt(fmt: &str) -> (r: (Option<String>, Option<String>, Option<String>))
    ensures
        (opt_view(r.0), opt_view(r.1), opt_view(r.2)) == spec_parse_fmt(fmt@),
{
    let f = chars_of(fmt);
    let mut color: Option<String> = None;
    let mut remaining: Vec<char>;
    if f.len() > 0 && color_code(f[0]) {
        color = Some(char_string(f[0]));
        remaining = Vec::new();
        let mut j: usize = 1;
        while j < f.len()
            invariant
                1 <= j <= f@.len(),
                remaining@ == f@.subrange(1, j as int),
            decreases f@.len() - j,
        {
            remaining.push(f[j]);
            assert(remaining@ =~= f@.subrange(1, j + 1));
            j += 1;
        }
        assert(remaining@ =~= f@.drop_first());
    } else {
        remaining = f;
    }
    let ghost rem0 = remaining@;

    let mut linestyle: Option<String> = None;
    if let Some(v) = try_linestyle(&remaining, "--") {
        linestyle = Some("--".to_owned());
        remaining = v;
    } else if let Some(v) = try_linestyle(&remaining, "-.") {
        linestyle = Some("-.".to_owned());
        remaining = v;
    } else if let Some(v) = try_linestyle(&remaining, ":") {
        linestyle = Some(":".to_owned());
        remaining = v;
    } else if let Some(v) = try_linestyle(&remaining, "-") {
        linestyle = Some("-".to_owned());
        remaining = v;
    }
    proof {
        reveal_strlit("--");
        reveal_strlit("-.");
        reveal_strlit(":");
        reveal_strlit("-");
    }
    assert(opt_view(linestyle) == take_linestyle(rem0).0);
    assert(remaining@ == take_linestyle(rem0).1);

    let mut i: usize = 0;
    while i < remaining.len() && !marker_code(remaining[i])
        invariant
            i <= remaining@.len(),
            first_marker(remaining@, 0) == first_marker(remaining@, i as int),
        decreases remaining@.len() - i,
    {
        i += 1;
    }
    let marker = if i < remaining.len() {
        Some(char_string(remaining[i]))
    } else {
        None
    };
    (color, linestyle, marker)
}

/// The full color name of a one-letter color code; other texts unchanged.
pub open spec fn spec_color_char_to_name(c: Seq<char>) -> Seq<char> {
    if c == "r"@ {
        "red"@
    } else if c == "g"@ {
        "green"@
    } else if c == "b"@ {
        "blue"@
    } else if c == "c"@ {
        "cyan"@
    } else if c == "m"@ {
        "magenta"@
    } else if c == "y"@ {
        "yellow"@
    } else if c == "k"@ {
        "black"@
    } else if c == "w"@ {
        "white"@
    } else {
        c
    }
}

/// Map single-char color to full color name.
pub fn color_char_to_name(c: &str) -> (r: String)
    ensures
        r@ == spec_color_char_to_name(c@),
{
    if str_eq(c, "r") {
        "red".to_owned()
    } else if str_eq(c, "g") {
        "green".to_owned()
    } else if str_eq(c, "b") {
        "blue".to_owned()
    } else if str_eq(c, "c") {
        "cyan".to_owned()
    } else if str_eq(c, "m") {
        "magenta".to_owned()
    } else if str_eq(c, "y") {
        "yellow".to_owned()
    } else if str_eq(c, "k") {
        "black".to_owned()
    } else if str_eq(c, "w") {
        "white".to_owned()
    } else {
        c.to_owned()
    }
}

/// How one group of positional plot arguments is drawn: the data array of
/// x values (none: x is `0, 1, 2, ...`), the data array of y values, and the
/// style parsed from the group's format string.
pub struct PlotGroup {
    pub x_index: Option<usize>,
    pub y_index: usize,
    pub color: Option<String>,
    pub linestyle: Option<String>,
    pub marker: Option<String>,
}

/// The style of group `k`: the parsed `k`-th format string when there is one.
pub open spec fn group_style(fmts: Seq<Option<String>>, k: int) -> (Option<Seq<char>>, Option<Seq<char>>, Option<Seq<char>>) {
    if k < fmts.len() && fmts[k] is Some {
        spec_parse_fmt(fmts[k]->0@)
    } else {
        (None, None, None)
    }
}

/// Group `k` of `n` data arrays: arrays `2k` (x) and `2k + 1` (y) with the
/// `k`-th format string, or, for a last array without partner, that array as
/// y with no style.
pub open spec fn is_group(g: PlotGroup, n: int, fmts: Seq<Option<String>>, k: int) -> bool {
    if 2 * k + 1 < n {
        &&& g.x_index == Some((2 * k) as usize)
        &&& g.y_index == 2 * k + 1
        &&& (opt_view(g.color), opt_view(g.linestyle), opt_view(g.marker)) == group_style(fmts, k)
    } else {
        &&& g.x_index is None
        &&& g.y_index == 2 * k
        &&& g.color is None && g.linestyle is None && g.marker is None
    }
}

/// Group `n_arrays` positional data arrays into plot groups: x/y pairs, each
/// styled by the format string of the same position, and a last lone array
/// as y values.
pub fn plot_groups(n_arrays: usize, fmt_strings: &Vec<Option<String>>) -> (gs: Vec<PlotGroup>)
    ensures
        gs@.len() == (n_arrays + 1) / 2,
        forall|k: int| 0 <= k < gs@.len() ==> is_group(#[trigger] gs@[k], n_arrays as int, fmt_strings@, k),
{
    let mut gs: Vec<PlotGroup> = Vec::new();
    let mut i: usize = 0;
    while i < n_arrays
        invariant
            i <= n_arrays + 1,
            i < n_arrays ==> i % 2 == 0,
            i < n_arrays ==> gs@.len() == i / 2,
            i >= n_arrays ==> gs@.len() == (n_arrays + 1) / 2,
            forall|k: int| 0 <= k < gs@.len() ==> is_group(#[trigger] gs@[k], n_arrays as int, fmt_strings@, k),
        decreases n_arrays + 1 - i,
    {
        if i + 1 < n_arrays {
            let k = i / 2;
            let g = if k < fmt_strings.len() {
                match &fmt_strings[k] {
                    Some(f) => {
                        let (c, l, m) = parse_fmt(f.as_str());
                        PlotGroup { x_index: Some(i), y_index: i + 1, color: c, linestyle: l, marker: m }
                    },
                    None => PlotGroup { x_index: Some(i), y_index: i + 1, color: None, linestyle: None, marker: None },
                }
            } else {
                PlotGroup { x_index: Some(i), y_index: i + 1, color: None, linestyle: None, marker: None }
            };
            gs.push(g);
            i += 2;
        } else {
            gs.push(PlotGroup { x_index: None, y_index: i, color: None, linestyle: None, marker: None });
            i += 1;
        }
    }
    gs
}

/// The text of an optional string.
pub open spec fn opt_text(o: Option<String>) -> Option<Seq<char>> {
    match o {
        Some(t) => Some(t@),
        None => None,
    }
}

/// The `i`-th entry of a list of optional texts; `None` past its end.
pub open spec fn text_at(v: Seq<Option<Seq<char>>>, i: int) -> Option<Seq<char>> {
    if 0 <= i < v.len() {
        v[i]
    } else {
        None
    }
}

/// A JSON member line `"key": "value",` with the given indent, written
/// only when there is a value.
pub open spec fn json_text_member(indent: Seq<char>, key: Seq<char>, v: Option<Seq<char>>) -> Seq<char> {
    match v {
        Some(t) => indent + "\""@ + key + "\": "@ + json_string(t) + ",\n"@,
        None => seq![],
    }
}

/// The JSON object of axes `i` out of `n`: its title and labels where it has
/// them, then its index; a comma follows all but the last.
pub open spec fn axes_json(
    i: nat,
    n: nat,
    titles: Seq<Option<Seq<char>>>,
    xlabels: Seq<Option<Seq<char>>>,
    ylabels: Seq<Option<Seq<char>>>,
) -> Seq<char> {
    "    {\n"@ + json_text_member("      "@, "title"@, text_at(titles, i as int))
        + json_text_member("      "@, "xlabel"@, text_at(xlabels, i as int))
        + json_text_member("      "@, "ylabel"@, text_at(ylabels, i as int)) + "      \"index\": "@
        + decimal(i) + "\n"@ + "    }"@ + (if i + 1 < n {
        ","@
    } else {
        seq![]
    }) + "\n"@
}

/// The JSON objects of the first `k` of `n` axes.
pub open spec fn axes_json_list(
    k: nat,
    n: nat,
    titles: Seq<Option<Seq<char>>>,
    xlabels: Seq<Option<Seq<char>>>,
    ylabels: Seq<Option<Seq<char>>>,
) -> Seq<char>
    decreases k,
{
    if k == 0 {
        seq![]
    } else {
        axes_json_list((k - 1) as nat, n, titles, xlabels, ylabels) + axes_json(
            (k - 1) as nat,
            n,
            titles,
            xlabels,
            ylabels,
        )
    }
}

/// The JSON text of a figure's metadata: its size (given as formatted
/// numbers), dpi, title if any, number of axes, and one object per axes.
pub open spec fn figure_json(
    width: Seq<char>,
    height: Seq<char>,
    dpi: u32,
    title: Option<Seq<char>>,
    n_axes: nat,
    titles: Seq<Option<Seq<char>>>,
    xlabels: Seq<Option<Seq<char>>>,
    ylabels: Seq<Option<Seq<char>>>,
) -> Seq<char> {
    "{\n"@ + "  \"width\": "@ + width + ",\n"@ + "  \"height\": "@ + height + ",\n"@ + "  \"dpi\": "@
        + decimal(dpi as nat) + ",\n"@ + json_text_member("  "@, "suptitle"@, title) + "  \"n_axes\": "@
        + decimal(n_axes) + ",\n"@ + "  \"axes\": [\n"@ + axes_json_list(n_axes, n_axes, titles, xlabels, ylabels)
        + "  ]\n"@ + "}\n"@
}

/// Append a JSON member line for an optional text value.
fn push_text_member(out: &mut String, indent: &str, key: &str, v: Option<&String>)
    ensures
        final(out)@ == old(out)@ + json_text_member(
            indent@,
            key@,
            match v {
                Some(t) => Some(t@),
                None => None,
            },
        ),
{
    match v {
        Some(t) => {
            out.append(indent);
            out.append("\"");
            out.append(key);
            out.append("\": ");
            push_json_string(out, t.as_str());
            out.append(",\n");
        },
        None => {
            assert(old(out)@ + Seq::<char>::empty() =~= old(out)@);
        },
    }
}

/// The `i`-th entry of a list of optional texts, if there is one.
fn entry_at(v: &Vec<Option<String>>, i: usize) -> (r: Option<&String>)
    ensures
        match r {
            Some(t) => text_at(v@.map_values(|o: Option<String>| opt_text(o)), i as int) == Some(t@),
            None => text_at(v@.map_values(|o: Option<String>| opt_text(o)), i as int) is None,
        },
{
    if i < v.len() {
        match &v[i] {
            Some(t) => Some(t),
            None => None,
        }
    } else {
        None
    }
}

/// Append the JSON object of axes `i` out of `n`.
fn push_axes_json(
    json: &mut String,
    i: usize,
    n: usize,
    axes_titles: &Vec<Option<String>>,
    axes_xlabels: &Vec<Option<String>>,
    axes_ylabels: &Vec<Option<String>>,
)
    requires
        i < n,
    ensures
        final(json)@ == old(json)@ + axes_json(
            i as nat,
            n as nat,
            axes_titles@.map_values(|o: Option<String>| opt_text(o)),
            axes_xlabels@.map_values(|o: Option<String>| opt_text(o)),
            axes_ylabels@.map_values(|o: Option<String>| opt_text(o)),
        ),
{
    let ghost ts = axes_titles@.map_values(|o: Option<String>| opt_text(o));
    let ghost xs = axes_xlabels@.map_values(|o: Option<String>| opt_text(o));
    let ghost ys = axes_ylabels@.map_values(|o: Option<String>| opt_text(o));
    json.append("    {\n");
    let ghost p0 = json@;
    push_text_member(json, "      ", "title", entry_at(axes_titles, i));
    let ghost p1 = json@;
    push_text_member(json, "      ", "xlabel", entry_at(axes_xlabels, i));
    let ghost p2 = json@;
    push_text_member(json, "      ", "ylabel", entry_at(axes_ylabels, i));
    let ghost p3 = json@;
    assert(p1 == p0 + json_text_member("      "@, "title"@, text_at(ts, i as int)));
    assert(p2 == p1 + json_text_member("      "@, "xlabel"@, text_at(xs, i as int)));
    assert(p3 == p2 + json_text_member("      "@, "ylabel"@, text_at(ys, i as int)));
    json.append("      \"index\": ");
    push_decimal(json, i as u64);
    json.append("\n");
    json.append("    }");
    let ghost mid = json@;
    if i + 1 < n {
        json.append(",");
    } else {
        assert(mid + Seq::<char>::empty() =~= mid);
    }
    json.append("\n");
    assert(json@ =~= old(json)@ + axes_json(i as nat, n as nat, ts, xs, ys));
}

/// The figure metadata as JSON text; `width` and `height` are the already
/// formatted numbers.
pub fn figure_json_text(
    width: &str,
    height: &str,
    dpi: u32,
    title: Option<String>,
    n_axes: usize,
    axes_titles: &Vec<Option<String>>,
    axes_xlabels: &Vec<Option<String>>,
    axes_ylabels: &Vec<Option<String>>,
) -> (json: String)
    ensures
        json@ == figure_json(
            width@,
            height@,
            dpi,
            opt_text(title),
            n_axes as nat,
            axes_titles@.map_values(|o: Option<String>| opt_text(o)),
            axes_xlabels@.map_values(|o: Option<String>| opt_text(o)),
            axes_ylabels@.map_values(|o: Option<String>| opt_text(o)),
        ),
{
    let ghost ts = axes_titles@.map_values(|o: Option<String>| opt_text(o));
    let ghost xs = axes_xlabels@.map_values(|o: Option<String>| opt_text(o));
    let ghost ys = axes_ylabels@.map_values(|o: Option<String>| opt_text(o));
    let mut json = String::new();
    json.append("{\n");
    json.append("  \"width\": ");
    json.append(width);
    json.append(",\n");
    json.append("  \"height\": ");
    json.append(height);
    json.append(",\n");
    json.append("  \"dpi\": ");
    push_decimal(&mut json, dpi as u64);
    json.append(",\n");
    push_text_member(&mut json, "  ", "suptitle", title.as_ref());
    json.append("  \"n_axes\": ");
    push_decimal(&mut json, n_axes as u64);
    json.append(",\n");
    json.append("  \"axes\": [\n");
    let ghost head = json@;
    let mut i: usize = 0;
    while i < n_axes
        invariant
            i <= n_axes,
            ts == axes_titles@.map_values(|o: Option<String>| opt_text(o)),
            xs == axes_xlabels@.map_values(|o: Option<String>| opt_text(o)),
            ys == axes_ylabels@.map_values(|o: Option<String>| opt_text(o)),
            json@ == head + axes_json_list(i as nat, n_axes as nat, ts, xs, ys),
        decreases n_axes - i,
    {
        push_axes_json(&mut json, i, n_axes, axes_titles, axes_xlabels, axes_ylabels);
        assert(json@ =~= head + axes_json_list((i + 1) as nat, n_axes as nat, ts, xs, ys));
        i += 1;
    }
    json.append("  ]\n");
    json.append("}\n");
    json
}

/// Each of the eight one-letter color codes `r`, `g`, `b`, `c`, `m`, `y`,
/// `k`, `w` at the front of a format string is its color; a format string
/// that starts with any other character has no color.
pub proof fn law_fmt_leading_color_code(c: char, rest: Seq<char>)
    ensures
        (c == 'r' || c == 'g' || c == 'b' || c == 'c' || c == 'm' || c == 'y' || c == 'k' || c == 'w')
            ==> spec_parse_fmt(seq![c] + rest).0 == Some(seq![c]),
        !(c == 'r' || c == 'g' || c == 'b' || c == 'c' || c == 'm' || c == 'y' || c == 'k' || c == 'w')
            ==> spec_parse_fmt(seq![c] + rest).0 is None,
{
    assert((seq![c] + rest)[0] == c);
}

} // verus!
