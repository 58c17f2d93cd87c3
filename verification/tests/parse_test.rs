use rustplotlib::parse::{color_char_to_name, figure_json_text, parse_fmt, plot_groups};

fn s(x: &str) -> Option<String> {
    Some(x.to_string())
}

#[test]
fn format_strings() {
    assert_eq!(parse_fmt("r--o"), (s("r"), s("--"), s("o")));
    assert_eq!(parse_fmt("g^"), (s("g"), None, s("^")));
    assert_eq!(parse_fmt("-."), (None, s("-."), None));
    assert_eq!(parse_fmt(":"), (None, s(":"), None));
    assert_eq!(parse_fmt("o-"), (None, s("-"), s("o")));
    assert_eq!(parse_fmt("k"), (s("k"), None, None));
    assert_eq!(parse_fmt(""), (None, None, None));
    assert_eq!(parse_fmt("x--"), (None, s("--"), s("x")));
}

#[test]
fn color_is_only_taken_from_the_front() {
    assert_eq!(parse_fmt("-r"), (None, s("-"), None));
    assert_eq!(parse_fmt("bs"), (s("b"), None, s("s")));
}

#[test]
fn linestyle_removed_before_marker_search() {
    // "-." is taken as a line style, so '.' is not a marker here
    assert_eq!(parse_fmt("-."), (None, s("-."), None));
    assert_eq!(parse_fmt(".-"), (None, s("-"), s(".")));
}

#[test]
fn color_names() {
    assert_eq!(color_char_to_name("r"), "red");
    assert_eq!(color_char_to_name("w"), "white");
    assert_eq!(color_char_to_name("tab:blue"), "tab:blue");
}

#[test]
fn grouping_of_plot_arguments() {
    let fmts = vec![s("r-"), None];
    let gs = plot_groups(5, &fmts);
    assert_eq!(gs.len(), 3);
    assert_eq!((gs[0].x_index, gs[0].y_index), (Some(0), 1));
    assert_eq!(gs[0].color, s("r"));
    assert_eq!(gs[0].linestyle, s("-"));
    assert_eq!((gs[1].x_index, gs[1].y_index), (Some(2), 3));
    assert_eq!(gs[1].color, None);
    assert_eq!((gs[2].x_index, gs[2].y_index), (None, 4));
    assert!(plot_groups(0, &vec![]).is_empty());
    let one = plot_groups(1, &vec![s("k")]);
    assert_eq!((one[0].x_index, one[0].y_index, one[0].color.clone()), (None, 0, None));
}

#[test]
fn figure_json_layout() {
    let json = figure_json_text(
        "6.4",
        "4.8",
        100,
        s("My \"fig\""),
        2,
        &vec![s("A"), None],
        &vec![None, s("x")],
        &vec![],
    );
    let expected = "{\n  \"width\": 6.4,\n  \"height\": 4.8,\n  \"dpi\": 100,\n  \"suptitle\": \"My \\\"fig\\\"\",\n  \"n_axes\": 2,\n  \"axes\": [\n    {\n      \"title\": \"A\",\n      \"index\": 0\n    },\n    {\n      \"xlabel\": \"x\",\n      \"index\": 1\n    }\n  ]\n}\n";
    assert_eq!(json, expected);
    let empty = figure_json_text("1", "2", 72, None, 0, &vec![], &vec![], &vec![]);
    assert_eq!(empty, "{\n  \"width\": 1,\n  \"height\": 2,\n  \"dpi\": 72,\n  \"n_axes\": 0,\n  \"axes\": [\n  ]\n}\n");
}

#[test]
fn figure_json_escapes_text() {
    let json = figure_json_text(
        "640",
        "480",
        100,
        s("a\u{1}b"),
        1,
        &vec![s("back\\slash \"q\"\nline\ttab \u{e9}")],
        &vec![],
        &vec![],
    );
    assert!(json.contains("  \"suptitle\": \"a\\u0001b\",\n"));
    assert!(json.contains("      \"title\": \"back\\\\slash \\\"q\\\"\\u000Aline\\u0009tab \u{e9}\",\n"));
    assert!(!json.contains('\u{1}'));
    assert!(json.ends_with("      \"index\": 0\n    }\n  ]\n}\n"));
}
