//! Small string operations of std that the rest of the library is built on.
use vstd::prelude::*;

verus! {

broadcast use vstd::string::group_string_axioms;

/// An ASCII character.
pub open spec fn is_ascii_char(c: char) -> bool {
    (c as u32) < 0x80
}

/// Every character of `s` is ASCII.
pub open spec fn all_ascii(s: Seq<char>) -> bool {
    forall|i: int| 0 <= i < s.len() ==> is_ascii_char(#[trigger] s[i])
}

/// An ASCII uppercase letter lowered; any other character unchanged.
pub open spec fn ascii_lower_char(c: char) -> char {
    if 'A' <= c && c <= 'Z' {
        ((c as u32 + 32) as u8) as char
    } else {
        c
    }
}

/// The lowercase form of a text with a non-ASCII character, as
/// `str::to_lowercase` computes it (the Unicode lowercase mapping, which for
/// a few characters depends on their neighbours, such as a capital sigma at
/// the end of a word).
pub uninterp spec fn unicode_lowercase(s: Seq<char>) -> Seq<char>;

/// The lowercase form of a string, as `str::to_lowercase` computes it: an
/// ASCII text has its letters `A`-`Z` lowered and every other character kept.
pub open spec fn lowercase(s: Seq<char>) -> Seq<char> {
    if all_ascii(s) {
        s.map_values(|c: char| ascii_lower_char(c))
    } else {
        unicode_lowercase(s)
    }
}

/// Calls `str::to_lowercase`. On ASCII text it lowers `A`-`Z` and keeps
/// every other character; on other text the result is named by
/// `unicode_lowercase`, and the Unicode case tables are not restated.
#[verifier::external_body]
pub(crate) fn to_lowercase(s: &str) -> (r: String)
    ensures
        r@ == lowercase(s@),
        !all_ascii(s@) ==> r@ == unicode_lowercase(s@),
{
    s.to_lowercase()
}

/// Lowering the case of an ASCII text twice is lowering it once.
pub proof fn law_lowercase_ascii_idempotent(s: Seq<char>)
    requires
        all_ascii(s),
    ensures
        all_ascii(lowercase(s)),
        lowercase(lowercase(s)) == lowercase(s),
{
    let l = lowercase(s);
    assert forall|i: int| 0 <= i < l.len() implies is_ascii_char(#[trigger] l[i]) by {
        assert(is_ascii_char(s[i]));
    }
    assert(lowercase(l) =~= l);
}

/// A character with the Unicode `White_Space` property.
pub open spec fn is_white_space(c: char) -> bool {
    ('\u{9}' <= c && c <= '\u{d}') || c == ' ' || c == '\u{85}' || c == '\u{a0}' || c == '\u{1680}'
        || ('\u{2000}' <= c && c <= '\u{200a}') || c == '\u{2028}' || c == '\u{2029}'
        || c == '\u{202f}' || c == '\u{205f}' || c == '\u{3000}'
}

/// The number of white-space characters at the start of `s`.
pub open spec fn leading_white_space(s: Seq<char>) -> nat
    decreases s.len(),
{
    if s.len() > 0 && is_white_space(s[0]) {
        1 + leading_white_space(s.drop_first())
    } else {
        0
    }
}

/// The number of white-space characters at the end of `s`.
pub open spec fn trailing_white_space(s: Seq<char>) -> nat
    decreases s.len(),
{
    if s.len() > 0 && is_white_space(s.last()) {
        1 + trailing_white_space(s.drop_last())
    } else {
        0
    }
}

/// `s` with its leading and then its trailing white space removed.
pub open spec fn trimmed(s: Seq<char>) -> Seq<char> {
    let t = s.subrange(leading_white_space(s) as int, s.len() as int);
    t.subrange(0, t.len() - trailing_white_space(t))
}

/// Calls `str::trim`, which removes leading and trailing characters with
/// the Unicode `White_Space` property.
#[verifier::external_body]
pub(crate) fn trim(s: &str) -> (r: &str)
    ensures
        r@ == trimmed(s@),
{
    s.trim()
}

/// Whether two string slices hold the same characters.
pub(crate) fn str_eq(a: &str, b: &str) -> (r: bool)
    ensures
        r == (a@ == b@),
{
    let ca = chars_of(a);
    let cb = chars_of(b);
    if ca.len() != cb.len() {
        return false;
    }
    let n = ca.len();
    let mut i: usize = 0;
    while i < n
        invariant
            n == ca@.len(),
            ca@ == a@,
            cb@ == b@,
            ca@.len() == cb@.len(),
            i <= n,
            forall|j: int| 0 <= j < i ==> ca@[j] == cb@[j],
        decreases n - i,
    {
        if ca[i] != cb[i] {
            return false;
        }
        i += 1;
    }
    assert(a@ =~= b@);
    true
}

/// Calls `String::push`, which appends one character.
#[verifier::external_body]
pub(crate) fn push_char(s: &mut String, c: char)
    ensures
        final(s)@ == old(s)@.push(c),
{
    s.push(c)
}

/// The characters of a string slice, in order.
pub fn chars_of(s: &str) -> (v: Vec<char>)
    ensures
        v@ == s@,
{
    let mut v: Vec<char> = Vec::new();
    for c in it: s.chars()
        invariant
            v@ == it.seq().take(it.index() as int),
    {
        v.push(c);
    }
    v
}

/// Whether `char::is_alphanumeric` holds of a non-ASCII character
/// (Unicode Alphabetic or Numeric).
pub uninterp spec fn unicode_alphanumeric(c: char) -> bool;

/// Whether `char::is_alphanumeric` holds of a character: for ASCII, the
/// letters `a`-`z`, `A`-`Z` and the digits `0`-`9`.
pub open spec fn alphanumeric(c: char) -> bool {
    if is_ascii_char(c) {
        ('a' <= c && c <= 'z') || ('A' <= c && c <= 'Z') || ('0' <= c && c <= '9')
    } else {
        unicode_alphanumeric(c)
    }
}

/// Calls `char::is_alphanumeric`. On ASCII it holds of letters and digits;
/// on other characters the result is named by `unicode_alphanumeric`, and
/// the Unicode property tables are not restated.
#[verifier::external_body]
pub(crate) fn is_alphanumeric(c: char) -> (b: bool)
    ensures
        b == alphanumeric(c),
        !is_ascii_char(c) ==> b == unicode_alphanumeric(c),
{
    c.is_alphanumeric()
}

/// The characters `s[a..b]` as a string.
pub fn string_of_range(s: &Vec<char>, a: usize, b: usize) -> (r: String)
    requires
        a <= b <= s@.len(),
    ensures
        r@ == s@.subrange(a as int, b as int),
{
    let mut r = String::new();
    let mut k = a;
    while k < b
        invariant
            a <= k <= b,
            b <= s@.len(),
            r@ == s@.subrange(a as int, k as int),
        decreases b - k,
    {
        push_char(&mut r, s[k]);
        assert(r@ =~= s@.subrange(a as int, k + 1));
        k += 1;
    }
    r
}

/// `p` is a prefix of `s`.
pub open spec fn has_prefix(s: Seq<char>, p: Seq<char>) -> bool {
    p.len() <= s.len() && s.subrange(0, p.len() as int) == p
}

/// Whether `p` is a prefix of `s`.
pub(crate) fn starts_with(s: &str, p: &str) -> (b: bool)
    ensures
        b == has_prefix(s@, p@),
{
    let cs = chars_of(s);
    let cp = chars_of(p);
    if cp.len() > cs.len() {
        return false;
    }
    let n = cp.len();
    let mut i: usize = 0;
    while i < n
        invariant
            n == cp@.len(),
            cs@ == s@,
            cp@ == p@,
            n <= cs@.len(),
            i <= n,
            forall|j: int| 0 <= j < i ==> cs@[j] == cp@[j],
        decreases n - i,
    {
        if cs[i] != cp[i] {
            assert(s@.subrange(0, n as int)[i as int] != p@[i as int]);
            return false;
        }
        i += 1;
    }
    assert(s@.subrange(0, n as int) =~= p@);
    true
}

/// `p` is a suffix of `s`.
pub open spec fn has_suffix(s: Seq<char>, p: Seq<char>) -> bool {
    p.len() <= s.len() && s.subrange(s.len() - p.len(), s.len() as int) == p
}

/// Whether `p` is a suffix of `s`.
pub(crate) fn ends_with(s: &str, p: &str) -> (b: bool)
    ensures
        b == has_suffix(s@, p@),
{
    let cs = chars_of(s);
    let cp = chars_of(p);
    if cp.len() > cs.len() {
        return false;
    }
    let n = cp.len();
    let k = cs.len() - n;
    let mut i: usize = 0;
    while i < n
        invariant
            n == cp@.len(),
            k + n == cs@.len(),
            k + n <= usize::MAX,
            cs@ == s@,
            cp@ == p@,
            i <= n,
            forall|j: int| 0 <= j < i ==> cs@[k + j] == cp@[j],
        decreases n - i,
    {
        if cs[k + i] != cp[i] {
            assert(s@.subrange(k as int, s@.len() as int)[i as int] != p@[i as int]);
            return false;
        }
        i += 1;
    }
    assert(s@.subrange(k as int, s@.len() as int) =~= p@);
    true
}

} // verus!
