use rustplotlib::mathtext::{command_symbol, parse_math_symbols, split_math_segments, to_subscript, to_superscript};

#[test]
fn greek_and_operators() {
    assert_eq!(parse_math_symbols("\\alpha + \\beta"), "α + β");
    assert_eq!(parse_math_symbols("\\Omega\\pm\\infty"), "Ω±∞");
    assert_eq!(parse_math_symbols("a \\leq b \\to c"), "a ≤ b → c");
    assert_eq!(parse_math_symbols("\\quad"), "  ");
}

#[test]
fn command_name_stops_at_non_alphanumeric() {
    assert_eq!(parse_math_symbols("\\alpha+1"), "α+1");
    assert_eq!(parse_math_symbols("\\alpha1"), "\\alpha1");
}

#[test]
fn unknown_commands_kept() {
    assert_eq!(parse_math_symbols("\\foo x"), "\\foo x");
    assert_eq!(parse_math_symbols("\\"), "\\");
}

#[test]
fn scripts() {
    assert_eq!(parse_math_symbols("x_1"), "x₁");
    assert_eq!(parse_math_symbols("x^2"), "x²");
    assert_eq!(parse_math_symbols("x_{10}"), "x₁₀");
    assert_eq!(parse_math_symbols("e^{i+n}"), "eⁱ⁺ⁿ");
    assert_eq!(parse_math_symbols("x^"), "x");
    assert_eq!(parse_math_symbols("y_{ab"), "yₐb");
}

#[test]
fn formatting_commands() {
    assert_eq!(parse_math_symbols("\\frac{a}{b}"), "a/b");
    assert_eq!(parse_math_symbols("\\frac{a}"), "a/");
    assert_eq!(parse_math_symbols("\\mathbf{x{y}}z"), "x{y}z");
    assert_eq!(parse_math_symbols("\\text x"), " x");
}

#[test]
fn braces_dropped_and_plain_text_unchanged() {
    assert_eq!(parse_math_symbols("{a}b"), "ab");
    assert_eq!(parse_math_symbols("plain text 42!"), "plain text 42!");
}

#[test]
fn sub_and_superscript_tables() {
    assert_eq!(to_subscript('3'), '₃');
    assert_eq!(to_subscript('k'), 'ₖ');
    assert_eq!(to_subscript('q'), 'q');
    assert_eq!(to_superscript('9'), '⁹');
    assert_eq!(to_superscript('n'), 'ⁿ');
    assert_eq!(to_superscript('a'), 'a');
}

#[test]
fn symbol_table_lookup() {
    assert_eq!(command_symbol("sum"), Some("Σ"));
    assert_eq!(command_symbol("le"), Some("≤"));
    assert_eq!(command_symbol("frac"), None);
}

#[test]
fn math_segments() {
    let s = split_math_segments("y = $\\alpha x$ m");
    assert_eq!(s, vec![("y = ".to_string(), false), ("\\alpha x".to_string(), true), (" m".to_string(), false)]);
    let s = split_math_segments("$$a$$");
    assert_eq!(s, vec![("a".to_string(), false)]);
    assert!(split_math_segments("").is_empty());
    let joined: String = split_math_segments("a$b$c").into_iter().map(|(t, _)| t).collect();
    assert_eq!(joined, "abc");
}

#[test]
fn command_names_may_be_non_ascii_letters() {
    assert_eq!(parse_math_symbols("\\αβ x"), "\\αβ x");
    assert_eq!(parse_math_symbols("\\pi·2"), "π·2");
}
