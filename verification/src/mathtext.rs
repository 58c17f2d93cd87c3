//! Math text: `$...$` segments and the conversion of LaTeX math commands to
//! Unicode.
use vstd::prelude::*;
use crate::strs::{alphanumeric, chars_of, is_alphanumeric, push_char, str_eq, string_of_range};

verus! {

broadcast use vstd::string::group_string_axioms;

/// The Unicode subscript form of a character; other characters stay as they are.
pub open spec fn subscript_of(c: char) -> char {
    if c == '0' {
        '₀'
    } else if c == '1' {
        '₁'
    } else if c == '2' {
        '₂'
    } else if c == '3' {
        '₃'
    } else if c == '4' {
        '₄'
    } else if c == '5' {
        '₅'
    } else if c == '6' {
        '₆'
    } else if c == '7' {
        '₇'
    } else if c == '8' {
        '₈'
    } else if c == '9' {
        '₉'
    } else if c == '+' {
        '₊'
    } else if c == '-' {
        '₋'
    } else if c == '=' {
        '₌'
    } else if c == '(' {
        '₍'
    } else if c == ')' {
        '₎'
    } else if c == 'a' {
        'ₐ'
    } else if c == 'e' {
        'ₑ'
    } else if c == 'o' {
        'ₒ'
    } else if c == 'x' {
        'ₓ'
    } else if c == 'i' {
        'ᵢ'
    } else if c == 'j' {
        'ⱼ'
    } else if c == 'k' {
        'ₖ'
    } else if c == 'n' {
        'ₙ'
    } else {
        c
    }
}

/// The Unicode superscript form of a character; other characters stay as they are.
pub open spec fn superscript_of(c: char) -> char {
    if c == '0' {
        '⁰'
    } else if c == '1' {
        '¹'
    } else if c == '2' {
        '²'
    } else if c == '3' {
        '³'
    } else if c == '4' {
        '⁴'
    } else if c == '5' {
        '⁵'
    } else if c == '6' {
        '⁶'
    } else if c == '7' {
        '⁷'
    } else if c == '8' {
        '⁸'
    } else if c == '9' {
        '⁹'
    } else if c == '+' {
        '⁺'
    } else if c == '-' {
        '⁻'
    } else if c == '=' {
        '⁼'
    } else if c == '(' {
        '⁽'
    } else if c == ')' {
        '⁾'
    } else if c == 'n' {
        'ⁿ'
    } else if c == 'i' {
        'ⁱ'
    } else {
        c
    }
}

/// Convert a digit/letter to Unicode subscript.
pub fn to_subscript(c: char) -> (r: char)
    ensures
        r == subscript_of(c),
{
    match c {
        '0' => '₀',
        '1' => '₁',
        '2' => '₂',
        '3' => '₃',
        '4' => '₄',
        '5' => '₅',
        '6' => '₆',
        '7' => '₇',
        '8' => '₈',
        '9' => '₉',
        '+' => '₊',
        '-' => '₋',
        '=' => '₌',
        '(' => '₍',
        ')' => '₎',
        'a' => 'ₐ',
        'e' => 'ₑ',
        'o' => 'ₒ',
        'x' => 'ₓ',
        'i' => 'ᵢ',
        'j' => 'ⱼ',
        'k' => 'ₖ',
        'n' => 'ₙ',
        _ => c,
    }
}

/// Convert a digit/letter to Unicode superscript.
pub fn to_superscript(c: char) -> (r: char)
    ensures
        r == superscript_of(c),
{
    match c {
        '0' => '⁰',
        '1' => '¹',
        '2' => '²',
        '3' => '³',
        '4' => '⁴',
        '5' => '⁵',
        '6' => '⁶',
        '7' => '⁷',
        '8' => '⁸',
        '9' => '⁹',
        '+' => '⁺',
        '-' => '⁻',
        '=' => '⁼',
        '(' => '⁽',
        ')' => '⁾',
        'n' => 'ⁿ',
        'i' => 'ⁱ',
        _ => c,
    }
}

/// The Unicode text of a math command name (without the backslash).
pub open spec fn spec_symbol(cmd: Seq<char>) -> Option<Seq<char>> {
    if cmd == "alpha"@ {
        Some("α"@)
    } else if cmd == "beta"@ {
        Some("β"@)
    } else if cmd == "gamma"@ {
        Some("γ"@)
    } else if cmd == "delta"@ {
        Some("δ"@)
    } else if cmd == "epsilon"@ {
        Some("ε"@)
    } else if cmd == "zeta"@ {
        Some("ζ"@)
    } else if cmd == "eta"@ {
        Some("η"@)
    } else if cmd == "theta"@ {
        Some("θ"@)
    } else if cmd == "iota"@ {
        Some("ι"@)
    } else if cmd == "kappa"@ {
        Some("κ"@)
    } else if cmd == "lambda"@ {
        Some("λ"@)
    } else if cmd == "mu"@ {
        Some("μ"@)
    } else if cmd == "nu"@ {
        Some("ν"@)
    } else if cmd == "xi"@ {
        Some("ξ"@)
    } else if cmd == "pi"@ {
        Some("π"@)
    } else if cmd == "rho"@ {
        Some("ρ"@)
    } else if cmd == "sigma"@ {
        Some("σ"@)
    } else if cmd == "tau"@ {
        Some("τ"@)
    } else if cmd == "upsilon"@ {
        Some("υ"@)
    } else if cmd == "phi"@ {
        Some("φ"@)
    } else if cmd == "chi"@ {
        Some("χ"@)
    } else if cmd == "psi"@ {
        Some("ψ"@)
    } else if cmd == "omega"@ {
        Some("ω"@)
    } else if cmd == "Alpha"@ {
        Some("Α"@)
    } else if cmd == "Beta"@ {
        Some("Β"@)
    } else if cmd == "Gamma"@ {
        Some("Γ"@)
    } else if cmd == "Delta"@ {
        Some("Δ"@)
    } else if cmd == "Theta"@ {
        Some("Θ"@)
    } else if cmd == "Lambda"@ {
        Some("Λ"@)
    } else if cmd == "Xi"@ {
        Some("Ξ"@)
    } else if cmd == "Pi"@ {
        Some("Π"@)
    } else if cmd == "Sigma"@ {
        Some("Σ"@)
    } else if cmd == "Phi"@ {
        Some("Φ"@)
    } else if cmd == "Psi"@ {
        Some("Ψ"@)
    } else if cmd == "Omega"@ {
        Some("Ω"@)
    } else if cmd == "pm"@ {
        Some("±"@)
    } else if cmd == "mp"@ {
        Some("∓"@)
    } else if cmd == "times"@ {
        Some("×"@)
    } else if cmd == "div"@ {
        Some("÷"@)
    } else if cmd == "cdot"@ {
        Some("·"@)
    } else if cmd == "ast"@ {
        Some("∗"@)
    } else if cmd == "star"@ {
        Some("⋆"@)
    } else if cmd == "circ"@ {
        Some("∘"@)
    } else if cmd == "bullet"@ {
        Some("•"@)
    } else if cmd == "leq"@ || cmd == "le"@ {
        Some("≤"@)
    } else if cmd == "geq"@ || cmd == "ge"@ {
        Some("≥"@)
    } else if cmd == "neq"@ || cmd == "ne"@ {
        Some("≠"@)
    } else if cmd == "approx"@ {
        Some("≈"@)
    } else if cmd == "sim"@ {
        Some("∼"@)
    } else if cmd == "equiv"@ {
        Some("≡"@)
    } else if cmd == "propto"@ {
        Some("∝"@)
    } else if cmd == "rightarrow"@ || cmd == "to"@ {
        Some("→"@)
    } else if cmd == "leftarrow"@ {
        Some("←"@)
    } else if cmd == "leftrightarrow"@ {
        Some("↔"@)
    } else if cmd == "Rightarrow"@ {
        Some("⇒"@)
    } else if cmd == "Leftarrow"@ {
        Some("⇐"@)
    } else if cmd == "infty"@ {
        Some("∞"@)
    } else if cmd == "partial"@ {
        Some("∂"@)
    } else if cmd == "nabla"@ {
        Some("∇"@)
    } else if cmd == "int"@ {
        Some("∫"@)
    } else if cmd == "sum"@ {
        Some("Σ"@)
    } else if cmd == "prod"@ {
        Some("∏"@)
    } else if cmd == "sqrt"@ {
        Some("√"@)
    } else if cmd == "in"@ {
        Some("∈"@)
    } else if cmd == "notin"@ {
        Some("∉"@)
    } else if cmd == "subset"@ {
        Some("⊂"@)
    } else if cmd == "supset"@ {
        Some("⊃"@)
    } else if cmd == "cup"@ {
        Some("∪"@)
    } else if cmd == "cap"@ {
        Some("∩"@)
    } else if cmd == "emptyset"@ {
        Some("∅"@)
    } else if cmd == "forall"@ {
        Some("∀"@)
    } else if cmd == "exists"@ {
        Some("∃"@)
    } else if cmd == "degree"@ || cmd == "deg"@ {
        Some("°"@)
    } else if cmd == "prime"@ {
        Some("′"@)
    } else if cmd == "hbar"@ {
        Some("ℏ"@)
    } else if cmd == "ell"@ {
        Some("ℓ"@)
    } else if cmd == "Re"@ {
        Some("ℜ"@)
    } else if cmd == "Im"@ {
        Some("ℑ"@)
    } else if cmd == "quad"@ {
        Some("  "@)
    } else if cmd == "qquad"@ {
        Some("    "@)
    } else if cmd == " "@ {
        Some(" "@)
    } else {
        None
    }
}

/// Look up the Unicode text of a math command name.
pub fn command_symbol(cmd: &str) -> (r: Option<&'static str>)
    ensures
        r matches Some(t) ==> spec_symbol(cmd@) == Some(t@),
        r is None ==> spec_symbol(cmd@) is None,
{
    if str_eq(cmd, "alpha") {
        Some("α")
    } else if str_eq(cmd, "beta") {
        Some("β")
    } else if str_eq(cmd, "gamma") {
        Some("γ")
    } else if str_eq(cmd, "delta") {
        Some("δ")
    } else if str_eq(cmd, "epsilon") {
        Some("ε")
    } else if str_eq(cmd, "zeta") {
        Some("ζ")
    } else if str_eq(cmd, "eta") {
        Some("η")
    } else if str_eq(cmd, "theta") {
        Some("θ")
    } else if str_eq(cmd, "iota") {
        Some("ι")
    } else if str_eq(cmd, "kappa") {
        Some("κ")
    } else if str_eq(cmd, "lambda") {
        Some("λ")
    } else if str_eq(cmd, "mu") {
        Some("μ")
    } else if str_eq(cmd, "nu") {
        Some("ν")
    } else if str_eq(cmd, "xi") {
        Some("ξ")
    } else if str_eq(cmd, "pi") {
        Some("π")
    } else if str_eq(cmd, "rho") {
        Some("ρ")
    } else if str_eq(cmd, "sigma") {
        Some("σ")
    } else if str_eq(cmd, "tau") {
        Some("τ")
    } else if str_eq(cmd, "upsilon") {
        Some("υ")
    } else if str_eq(cmd, "phi") {
        Some("φ")
    } else if str_eq(cmd, "chi") {
        Some("χ")
    } else if str_eq(cmd, "psi") {
        Some("ψ")
    } else if str_eq(cmd, "omega") {
        Some("ω")
    } else if str_eq(cmd, "Alpha") {
        Some("Α")
    } else if str_eq(cmd, "Beta") {
        Some("Β")
    } else if str_eq(cmd, "Gamma") {
        Some("Γ")
    } else if str_eq(cmd, "Delta") {
        Some("Δ")
    } else if str_eq(cmd, "Theta") {
        Some("Θ")
    } else if str_eq(cmd, "Lambda") {
        Some("Λ")
    } else if str_eq(cmd, "Xi") {
        Some("Ξ")
    } else if str_eq(cmd, "Pi") {
        Some("Π")
    } else if str_eq(cmd, "Sigma") {
        Some("Σ")
    } else if str_eq(cmd, "Phi") {
        Some("Φ")
    } else if str_eq(cmd, "Psi") {
        Some("Ψ")
    } else if str_eq(cmd, "Omega") {
        Some("Ω")
    } else if str_eq(cmd, "pm") {
        Some("±")
    } else if str_eq(cmd, "mp") {
        Some("∓")
    } else if str_eq(cmd, "times") {
        Some("×")
    } else if str_eq(cmd, "div") {
        Some("÷")
    } else if str_eq(cmd, "cdot") {
        Some("·")
    } else if str_eq(cmd, "ast") {
        Some("∗")
    } else if str_eq(cmd, "star") {
        Some("⋆")
    } else if str_eq(cmd, "circ") {
        Some("∘")
    } else if str_eq(cmd, "bullet") {
        Some("•")
    } else if str_eq(cmd, "leq") || str_eq(cmd, "le") {
        Some("≤")
    } else if str_eq(cmd, "geq") || str_eq(cmd, "ge") {
        Some("≥")
    } else if str_eq(cmd, "neq") || str_eq(cmd, "ne") {
        Some("≠")
    } else if str_eq(cmd, "approx") {
        Some("≈")
    } else if str_eq(cmd, "sim") {
        Some("∼")
    } else if str_eq(cmd, "equiv") {
        Some("≡")
    } else if str_eq(cmd, "propto") {
        Some("∝")
    } else if str_eq(cmd, "rightarrow") || str_eq(cmd, "to") {
        Some("→")
    } else if str_eq(cmd, "leftarrow") {
        Some("←")
    } else if str_eq(cmd, "leftrightarrow") {
        Some("↔")
    } else if str_eq(cmd, "Rightarrow") {
        Some("⇒")
    } else if str_eq(cmd, "Leftarrow") {
        Some("⇐")
    } else if str_eq(cmd, "infty") {
        Some("∞")
    } else if str_eq(cmd, "partial") {
        Some("∂")
    } else if str_eq(cmd, "nabla") {
        Some("∇")
    } else if str_eq(cmd, "int") {
        Some("∫")
    } else if str_eq(cmd, "sum") {
        Some("Σ")
    } else if str_eq(cmd, "prod") {
        Some("∏")
    } else if str_eq(cmd, "sqrt") {
        Some("√")
    } else if str_eq(cmd, "in") {
        Some("∈")
    } else if str_eq(cmd, "notin") {
        Some("∉")
    } else if str_eq(cmd, "subset") {
        Some("⊂")
    } else if str_eq(cmd, "supset") {
        Some("⊃")
    } else if str_eq(cmd, "cup") {
        Some("∪")
    } else if str_eq(cmd, "cap") {
        Some("∩")
    } else if str_eq(cmd, "emptyset") {
        Some("∅")
    } else if str_eq(cmd, "forall") {
        Some("∀")
    } else if str_eq(cmd, "exists") {
        Some("∃")
    } else if str_eq(cmd, "degree") || str_eq(cmd, "deg") {
        Some("°")
    } else if str_eq(cmd, "prime") {
        Some("′")
    } else if str_eq(cmd, "hbar") {
        Some("ℏ")
    } else if str_eq(cmd, "ell") {
        Some("ℓ")
    } else if str_eq(cmd, "Re") {
        Some("ℜ")
    } else if str_eq(cmd, "Im") {
        Some("ℑ")
    } else if str_eq(cmd, "quad") {
        Some("  ")
    } else if str_eq(cmd, "qquad") {
        Some("    ")
    } else if str_eq(cmd, " ") {
        Some(" ")
    } else {
        None
    }
}

/// The formatting commands whose braced argument is copied through.
pub open spec fn is_format_command(cmd: Seq<char>) -> bool {
    cmd == "frac"@ || cmd == "mathbf"@ || cmd == "mathit"@ || cmd == "mathrm"@ || cmd == "text"@
}

fn format_command(cmd: &str) -> (b: bool)
    ensures
        b == is_format_command(cmd@),
{
    str_eq(cmd, "frac") || str_eq(cmd, "mathbf") || str_eq(cmd, "mathit") || str_eq(cmd, "mathrm")
        || str_eq(cmd, "text")
}

/// The first index at or after `i` that does not hold an alphanumeric
/// character (the end of a command name).
pub open spec fn name_end(s: Seq<char>, i: int) -> int
    decreases s.len() - i,
{
    if 0 <= i < s.len() && alphanumeric(s[i]) {
        name_end(s, i + 1)
    } else {
        i
    }
}

/// Brace depth after reading `c` at depth `d`.
pub open spec fn depth_after(c: char, d: int) -> int {
    if c == '{' {
        d + 1
    } else if c == '}' {
        d - 1
    } else {
        d
    }
}

/// The body of a brace group read from `i` at depth `d`: every character up
/// to the brace that closes depth 1 (nested braces included), or to the end.
pub open spec fn group_body(s: Seq<char>, i: int, d: int) -> Seq<char>
    decreases s.len() - i,
{
    if i < 0 || i >= s.len() {
        seq![]
    } else if s[i] == '}' && d == 1 {
        seq![]
    } else {
        seq![s[i]] + group_body(s, i + 1, depth_after(s[i], d))
    }
}

/// The index just past a brace group read from `i` at depth `d`.
pub open spec fn group_end(s: Seq<char>, i: int, d: int) -> int
    decreases s.len() - i,
{
    if i < 0 || i >= s.len() {
        s.len() as int
    } else if s[i] == '}' && d == 1 {
        i + 1
    } else {
        group_end(s, i + 1, depth_after(s[i], d))
    }
}

/// The first `'}'` at or after `j`, or the end of `s`.
pub open spec fn close_index(s: Seq<char>, j: int) -> int
    decreases s.len() - j,
{
    if j < 0 || j >= s.len() {
        s.len() as int
    } else if s[j] == '}' {
        j
    } else {
        close_index(s, j + 1)
    }
}

/// A character in subscript (`sup == false`) or superscript form.
pub open spec fn script_char(c: char, sup: bool) -> char {
    if sup {
        superscript_of(c)
    } else {
        subscript_of(c)
    }
}

/// Every character of `t` in script form.
pub open spec fn map_script(t: Seq<char>, sup: bool) -> Seq<char> {
    t.map_values(|c: char| script_char(c, sup))
}

/// What a `_` or `^` at `i` produces: the next character in script form, or
/// every character of a following `{...}` group up to the first `'}'`.
pub open spec fn script_piece(s: Seq<char>, i: int, sup: bool) -> Seq<char> {
    if i + 1 >= s.len() {
        seq![]
    } else if s[i + 1] == '{' {
        map_script(s.subrange(i + 2, close_index(s, i + 2)), sup)
    } else {
        seq![script_char(s[i + 1], sup)]
    }
}

/// Where reading resumes after a `_` or `^` at `i`.
pub open spec fn script_next(s: Seq<char>, i: int) -> int {
    if i + 1 >= s.len() {
        i + 1
    } else if s[i + 1] == '{' {
        let k = close_index(s, i + 2);
        if k < s.len() {
            k + 1
        } else {
            s.len() as int
        }
    } else {
        i + 2
    }
}

/// What a backslash command at `i` produces: its symbol; for a formatting
/// command the braced argument (for `frac`, numerator, `'/'`, denominator);
/// for an unknown command the backslash and the name unchanged.
pub open spec fn command_piece(s: Seq<char>, i: int) -> Seq<char> {
    let j = name_end(s, i + 1);
    let cmd = s.subrange(i + 1, j);
    match spec_symbol(cmd) {
        Some(t) => t,
        None => {
            if is_format_command(cmd) {
                if j < s.len() && s[j] == '{' {
                    let body = group_body(s, j + 1, 1);
                    let e = group_end(s, j + 1, 1);
                    if cmd == "frac"@ {
                        if e < s.len() && s[e] == '{' {
                            body + seq!['/'] + group_body(s, e + 1, 1)
                        } else {
                            body + seq!['/']
                        }
                    } else {
                        body
                    }
                } else {
                    seq![]
                }
            } else {
                seq!['\\'] + cmd
            }
        },
    }
}

/// Where reading resumes after a backslash command at `i`.
pub open spec fn command_next(s: Seq<char>, i: int) -> int {
    let j = name_end(s, i + 1);
    let cmd = s.subrange(i + 1, j);
    if spec_symbol(cmd) is None && is_format_command(cmd) && j < s.len() && s[j] == '{' {
        let e = group_end(s, j + 1, 1);
        if cmd == "frac"@ && e < s.len() && s[e] == '{' {
            group_end(s, e + 1, 1)
        } else {
            e
        }
    } else {
        j
    }
}

/// What the character at `i` starts: a command, a sub/superscript, a brace
/// (dropped) or a plain character (kept).
pub open spec fn piece(s: Seq<char>, i: int) -> Seq<char> {
    if s[i] == '\\' {
        command_piece(s, i)
    } else if s[i] == '_' {
        script_piece(s, i, false)
    } else if s[i] == '^' {
        script_piece(s, i, true)
    } else if s[i] == '{' || s[i] == '}' {
        seq![]
    } else {
        seq![s[i]]
    }
}

/// Where reading resumes after the piece that starts at `i`.
pub open spec fn next_index(s: Seq<char>, i: int) -> int {
    if s[i] == '\\' {
        command_next(s, i)
    } else if s[i] == '_' || s[i] == '^' {
        script_next(s, i)
    } else {
        i + 1
    }
}

/// The converted text of `s` from index `i` on.
pub open spec fn scan(s: Seq<char>, i: int) -> Seq<char>
    decreases s.len() - i,
{
    if i < 0 || i >= s.len() {
        seq![]
    } else if i < next_index(s, i) <= s.len() {
        piece(s, i) + scan(s, next_index(s, i))
    } else {
        seq![]
    }
}

/// The Unicode text of a math-mode string.
pub open spec fn spec_math_symbols(s: Seq<char>) -> Seq<char> {
    scan(s, 0)
}

proof fn lemma_name_end(s: Seq<char>, i: int)
    requires
        0 <= i <= s.len(),
    ensures
        i <= name_end(s, i) <= s.len(),
    decreases s.len() - i,
{
    if i < s.len() && alphanumeric(s[i]) {
        lemma_name_end(s, i + 1);
    }
}

proof fn lemma_group_end(s: Seq<char>, i: int, d: int)
    requires
        0 <= i <= s.len(),
    ensures
        i <= group_end(s, i, d) <= s.len(),
    decreases s.len() - i,
{
    if i < s.len() && !(s[i] == '}' && d == 1) {
        lemma_group_end(s, i + 1, depth_after(s[i], d));
    }
}

proof fn lemma_close_index(s: Seq<char>, j: int)
    requires
        0 <= j <= s.len(),
    ensures
        j <= close_index(s, j) <= s.len(),
        close_index(s, j) < s.len() ==> s[close_index(s, j)] == '}',
        forall|k: int| j <= k < close_index(s, j) ==> s[k] != '}',
    decreases s.len() - j,
{
    if j < s.len() && s[j] != '}' {
        lemma_close_index(s, j + 1);
    }
}

/// Every piece moves reading forward, and not past the end.
proof fn lemma_next_index(s: Seq<char>, i: int)
    requires
        0 <= i < s.len(),
    ensures
        i < next_index(s, i) <= s.len(),
{
    lemma_name_end(s, i + 1);
    let j = name_end(s, i + 1);
    if j < s.len() {
        lemma_group_end(s, j + 1, 1);
        let e = group_end(s, j + 1, 1);
        if e < s.len() {
            lemma_group_end(s, e + 1, 1);
        }
    }
    if i + 2 <= s.len() {
        lemma_close_index(s, i + 2);
    }
}

/// Read a command name starting at `i`.
fn read_name(s: &Vec<char>, i: usize) -> (j: usize)
    requires
        i <= s@.len(),
    ensures
        j as int == name_end(s@, i as int),
{
    let n = s.len();
    let mut j = i;
    while j < n && is_alphanumeric(s[j])
        invariant
            n == s@.len(),
            i <= j <= n,
            name_end(s@, j as int) == name_end(s@, i as int),
        decreases n - j,
    {
        j += 1;
    }
    j
}

/// Copy the body of a brace group whose opening brace is just before `start`.
fn read_group(s: &Vec<char>, start: usize, out: &mut String) -> (end: usize)
    requires
        1 <= start <= s@.len(),
    ensures
        final(out)@ == old(out)@ + group_body(s@, start as int, 1),
        end as int == group_end(s@, start as int, 1),
{
    let n = s.len();
    let mut k = start;
    let mut depth: usize = 1;
    while k < n && !(s[k] == '}' && depth == 1)
        invariant
            n == s@.len(),
            1 <= start <= k <= n,
            1 <= depth <= k - start + 1,
            out@ + group_body(s@, k as int, depth as int) == old(out)@ + group_body(s@, start as int, 1),
            group_end(s@, k as int, depth as int) == group_end(s@, start as int, 1),
        decreases n - k,
    {
        let c = s[k];
        let ghost before = out@;
        push_char(out, c);
        if c == '{' {
            depth = depth + 1;
        } else if c == '}' {
            depth = depth - 1;
        }
        k += 1;
        assert(out@ + group_body(s@, k as int, depth as int) =~= before + (seq![c] + group_body(s@, k as int, depth as int)));
    }
    if k < n {
        k + 1
    } else {
        n
    }
}

/// Convert the script after a `_` (`sup == false`) or `^` at `i`.
fn read_script(s: &Vec<char>, i: usize, sup: bool, out: &mut String) -> (next: usize)
    requires
        i < s@.len(),
    ensures
        final(out)@ == old(out)@ + script_piece(s@, i as int, sup),
        next as int == script_next(s@, i as int),
{
    let n = s.len();
    if i + 1 >= n {
        return i + 1;
    }
    if s[i + 1] == '{' {
        let mut k = i + 2;
        proof {
            lemma_close_index(s@, (i + 2) as int);
        }
        while k < n && s[k] != '}'
            invariant
                n == s@.len(),
                i + 2 <= k <= n,
                k <= close_index(s@, (i + 2) as int),
                close_index(s@, (i + 2) as int) <= n,
                forall|m: int| (i + 2) as int <= m < close_index(s@, (i + 2) as int) ==> s@[m] != '}',
                close_index(s@, (i + 2) as int) < n ==> s@[close_index(s@, (i + 2) as int)] == '}',
                out@ == old(out)@ + map_script(s@.subrange((i + 2) as int, k as int), sup),
            decreases n - k,
        {
            let c = s[k];
            let m = if sup {
                to_superscript(c)
            } else {
                to_subscript(c)
            };
            push_char(out, m);
            assert(map_script(s@.subrange((i + 2) as int, k + 1), sup) =~= map_script(
                s@.subrange((i + 2) as int, k as int),
                sup,
            ).push(script_char(c, sup)));
            k += 1;
        }
        assert(k as int == close_index(s@, (i + 2) as int));
        if k < n {
            k + 1
        } else {
            n
        }
    } else {
        let c = s[i + 1];
        let m = if sup {
            to_superscript(c)
        } else {
            to_subscript(c)
        };
        push_char(out, m);
        i + 2
    }
}

/// Convert the backslash command at `i`.
fn read_command(s: &Vec<char>, i: usize, out: &mut String) -> (next: usize)
    requires
        i < s@.len(),
    ensures
        final(out)@ == old(out)@ + command_piece(s@, i as int),
        next as int == command_next(s@, i as int),
{
    let n = s.len();
    proof {
        lemma_name_end(s@, i + 1);
    }
    let j = read_name(s, i + 1);
    let cmd = string_of_range(s, i + 1, j);
    match command_symbol(cmd.as_str()) {
        Some(t) => {
            out.append(t);
            j
        },
        None => {
            if format_command(cmd.as_str()) {
                if j < n && s[j] == '{' {
                    proof {
                        lemma_group_end(s@, j + 1, 1);
                    }
                    let e = read_group(s, j + 1, out);
                    if str_eq(cmd.as_str(), "frac") {
                        push_char(out, '/');
                        if e < n && s[e] == '{' {
                            let e2 = read_group(s, e + 1, out);
                            e2
                        } else {
                            e
                        }
                    } else {
                        e
                    }
                } else {
                    j
                }
            } else {
                push_char(out, '\\');
                out.append(cmd.as_str());
                j
            }
        },
    }
}

/// Convert LaTeX math commands to Unicode equivalents: Greek letters,
/// operators, relations, arrows and other symbols; `_x`/`_{..}` and
/// `^x`/`^{..}` to sub- and superscripts; braces dropped.
pub fn parse_math_symbols(input: &str) -> (r: String)
    ensures
        r@ == spec_math_symbols(input@),
{
    let s = chars_of(input);
    let n = s.len();
    let mut out = String::new();
    let mut i: usize = 0;
    while i < n
        invariant
            n == s@.len(),
            s@ == input@,
            i <= n,
            out@ + scan(s@, i as int) == scan(s@, 0),
        decreases n - i,
    {
        let ghost old_i = i as int;
        let ghost old_out = out@;
        proof {
            lemma_next_index(s@, old_i);
        }
        let c = s[i];
        if c == '\\' {
            i = read_command(&s, i, &mut out);
        } else if c == '_' {
            i = read_script(&s, i, false, &mut out);
        } else if c == '^' {
            i = read_script(&s, i, true, &mut out);
        } else if c == '{' || c == '}' {
            i = i + 1;
        } else {
            push_char(&mut out, c);
            i = i + 1;
        }
        assert(i as int == next_index(s@, old_i));
        assert(out@ == old_out + piece(s@, old_i));
        assert(scan(s@, old_i) == piece(s@, old_i) + scan(s@, i as int));
        assert(out@ + scan(s@, i as int) =~= old_out + (piece(s@, old_i) + scan(s@, i as int)));
    }
    out
}

/// A segment of text and whether it lies between `$` delimiters.
pub open spec fn segment_view(p: (String, bool)) -> (Seq<char>, bool) {
    (p.0@, p.1)
}

/// The split of `s[..n]` into finished segments, the segment being read and
/// whether reading is inside `$...$`.
pub open spec fn seg_state(s: Seq<char>, n: int) -> (Seq<(Seq<char>, bool)>, Seq<char>, bool)
    decreases n,
{
    if n <= 0 {
        (seq![], seq![], false)
    } else {
        let (acc, cur, m) = seg_state(s, n - 1);
        let c = s[n - 1];
        if c == '$' {
            (if cur.len() > 0 {
                acc.push((cur, m))
            } else {
                acc
            }, seq![], !m)
        } else {
            (acc, cur.push(c), m)
        }
    }
}

/// The non-empty segments of `s` between `$` delimiters, each marked as math
/// (inside `$...$`) or plain.
pub open spec fn spec_math_segments(s: Seq<char>) -> Seq<(Seq<char>, bool)> {
    let (acc, cur, m) = seg_state(s, s.len() as int);
    if cur.len() > 0 {
        acc.push((cur, m))
    } else {
        acc
    }
}

/// Split a text into its plain and `$...$` math segments, dropping the `$`
/// delimiters and empty segments.
pub fn split_math_segments(raw_text: &str) -> (segs: Vec<(String, bool)>)
    ensures
        segs@.map_values(|p: (String, bool)| segment_view(p)) == spec_math_segments(raw_text@),
{
    let s = chars_of(raw_text);
    let n = s.len();
    let mut segs: Vec<(String, bool)> = Vec::new();
    let mut in_math = false;
    let mut current = String::new();
    let mut i: usize = 0;
    while i < n
        invariant
            n == s@.len(),
            s@ == raw_text@,
            i <= n,
            seg_state(s@, i as int) == (segs@.map_values(|p: (String, bool)| segment_view(p)), current@, in_math),
        decreases n - i,
    {
        let c = s[i];
        let ghost old_segs = segs@;
        if c == '$' {
            if current.unicode_len() > 0 {
                segs.push((current, in_math));
                assert(segs@.map_values(|p: (String, bool)| segment_view(p)) =~= old_segs.map_values(
                    |p: (String, bool)| segment_view(p),
                ).push((current@, in_math)));
            }
            current = String::new();
            in_math = !in_math;
        } else {
            push_char(&mut current, c);
        }
        i += 1;
    }
    if current.unicode_len() > 0 {
        let ghost old_segs = segs@;
        segs.push((current, in_math));
        assert(segs@.map_values(|p: (String, bool)| segment_view(p)) =~= old_segs.map_values(
            |p: (String, bool)| segment_view(p),
        ).push((current@, in_math)));
    }
    segs
}

/// No character of `s` starts a command, a script or a brace.
pub open spec fn is_plain_math_text(s: Seq<char>) -> bool {
    forall|i: int|
        0 <= i < s.len() ==> {
            let c = #[trigger] s[i];
            c != '\\' && c != '_' && c != '^' && c != '{' && c != '}'
        }
}

proof fn lemma_plain_scan(s: Seq<char>, i: int)
    requires
        is_plain_math_text(s),
        0 <= i <= s.len(),
    ensures
        scan(s, i) == s.subrange(i, s.len() as int),
    decreases s.len() - i,
{
    if i < s.len() {
        let c = s[i];
        assert(c != '\\' && c != '_' && c != '^' && c != '{' && c != '}');
        lemma_plain_scan(s, i + 1);
        assert(s.subrange(i, s.len() as int) =~= seq![s[i]] + s.subrange(i + 1, s.len() as int));
    } else {
        assert(s.subrange(i, s.len() as int) =~= Seq::<char>::empty());
    }
}

/// Text without backslash commands, `_`, `^` or braces comes out of math
/// symbol conversion unchanged.
pub proof fn law_plain_math_text_unchanged(s: Seq<char>)
    requires
        is_plain_math_text(s),
    ensures
        spec_math_symbols(s) == s,
{
    lemma_plain_scan(s, 0);
    assert(s.subrange(0, s.len() as int) =~= s);
}

/// `s` with every `$` removed.
pub open spec fn without_dollars(s: Seq<char>) -> Seq<char>
    decreases s.len(),
{
    if s.len() == 0 {
        seq![]
    } else if s.last() == '$' {
        without_dollars(s.drop_last())
    } else {
        without_dollars(s.drop_last()).push(s.last())
    }
}

/// The texts of the segments, one after another.
pub open spec fn joined_texts(segs: Seq<(Seq<char>, bool)>) -> Seq<char>
    decreases segs.len(),
{
    if segs.len() == 0 {
        seq![]
    } else {
        joined_texts(segs.drop_last()) + segs.last().0
    }
}

proof fn lemma_seg_state(s: Seq<char>, n: int)
    requires
        0 <= n <= s.len(),
    ensures
        joined_texts(seg_state(s, n).0) + seg_state(s, n).1 == without_dollars(s.take(n)),
        forall|k: int| 0 <= k < seg_state(s, n).0.len() ==> (#[trigger] seg_state(s, n).0[k]).0.len() > 0,
    decreases n,
{
    if n == 0 {
        assert(s.take(0) =~= Seq::<char>::empty());
    } else {
        lemma_seg_state(s, n - 1);
        let (acc, cur, m) = seg_state(s, n - 1);
        assert(s.take(n).drop_last() =~= s.take(n - 1));
        assert(s.take(n).last() == s[n - 1]);
        if s[n - 1] == '$' {
            if cur.len() > 0 {
                assert(acc.push((cur, m)).drop_last() =~= acc);
                assert(joined_texts(acc.push((cur, m))) + seq![] =~= joined_texts(acc) + cur);
            } else {
                assert(joined_texts(acc) + seq![] =~= joined_texts(acc) + cur);
            }
        } else {
            assert(joined_texts(acc) + cur.push(s[n - 1]) =~= (joined_texts(acc) + cur).push(s[n - 1]));
        }
    }
}

/// Splitting into math segments loses no character but the `$` delimiters,
/// and yields no empty segment.
pub proof fn law_math_segments_cover_text(s: Seq<char>)
    ensures
        joined_texts(spec_math_segments(s)) == without_dollars(s),
        forall|k: int| 0 <= k < spec_math_segments(s).len() ==> (#[trigger] spec_math_segments(s)[k]).0.len() > 0,
{
    lemma_seg_state(s, s.len() as int);
    assert(s.take(s.len() as int) =~= s);
    let (acc, cur, m) = seg_state(s, s.len() as int);
    if cur.len() > 0 {
        assert(acc.push((cur, m)).drop_last() =~= acc);
    }
}

/// A `_` followed by a digit `d` gives the subscript digit U+2080 + d, and
/// a `^` followed by a digit gives its superscript digit (U+2070 + d, with
/// U+00B9, U+00B2, U+00B3 for one, two and three); reading goes on after the
/// digit.
pub proof fn law_script_digits(s: Seq<char>, i: int)
    requires
        0 <= i,
        i + 1 < s.len(),
        s[i] == '_' || s[i] == '^',
        '0' <= s[i + 1] && s[i + 1] <= '9',
    ensures
        scan(s, i).len() >= 1,
        scan(s, i).drop_first() == scan(s, i + 2),
        s[i] == '_' ==> scan(s, i)[0] as u32 == 0x2080 + (s[i + 1] as u32 - 0x30),
        s[i] == '^' ==> scan(s, i)[0] as u32 == (if s[i + 1] == '1' {
            0xb9
        } else if s[i + 1] == '2' {
            0xb2
        } else if s[i + 1] == '3' {
            0xb3
        } else {
            0x2070 + (s[i + 1] as u32 - 0x30)
        }),
{
    let d = s[i + 1];
    assert(next_index(s, i) == i + 2);
    assert(scan(s, i) == piece(s, i) + scan(s, i + 2));
    assert(piece(s, i) == seq![script_char(d, s[i] == '^')]);
    assert((piece(s, i) + scan(s, i + 2)).drop_first() =~= scan(s, i + 2));
    assert(scan(s, i)[0] == script_char(d, s[i] == '^'));
}

/// In particular `x_d` (any plain character `x`, any digit `d`) reads as
/// `x` followed by the subscript digit U+2080 + d.
pub proof fn law_subscript_digit_text(x: char, d: char)
    requires
        x != '\\' && x != '_' && x != '^' && x != '{' && x != '}',
        '0' <= d && d <= '9',
    ensures
        spec_math_symbols(seq![x, '_', d]).len() == 2,
        spec_math_symbols(seq![x, '_', d])[0] == x,
        spec_math_symbols(seq![x, '_', d])[1] as u32 == 0x2080 + (d as u32 - 0x30),
{
    let s = seq![x, '_', d];
    assert(next_index(s, 0) == 1);
    assert(scan(s, 0) == seq![x] + scan(s, 1));
    law_script_digits(s, 1);
    assert(scan(s, 3) == Seq::<char>::empty());
    assert(scan(s, 1).drop_first() =~= Seq::<char>::empty());
}

} // verus!
