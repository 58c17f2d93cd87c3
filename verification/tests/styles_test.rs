use rustplotlib::artists::{
    colormap_choice, pie_default_colors, ColorCycle, split_colormap_name, Colormap, tab10_color, ArrowStyle, ImageInterpolation, LineStyle, MarkerStyle, StepWhere,
};
use rustplotlib::axes::{spine_index, AspectRatio, AxisScale, GridWhich, TableData, TickDirection};
use rustplotlib::colors::Color;
use rustplotlib::text::{TextAnchorX, TextAnchorY};

#[test]
fn line_styles() {
    assert_eq!(LineStyle::from_str("-"), LineStyle::Solid);
    assert_eq!(LineStyle::from_str("DASHED"), LineStyle::Dashed);
    assert_eq!(LineStyle::from_str("-."), LineStyle::DashDot);
    assert_eq!(LineStyle::from_str("Dotted"), LineStyle::Dotted);
    assert_eq!(LineStyle::from_str("None"), LineStyle::NoLine);
    assert_eq!(LineStyle::from_str(""), LineStyle::NoLine);
    assert_eq!(LineStyle::from_str("wiggly"), LineStyle::Solid);
    assert_eq!(LineStyle::from_lowercase("DASHED"), LineStyle::Solid);
}

#[test]
fn marker_styles() {
    assert_eq!(MarkerStyle::from_str("o"), MarkerStyle::Circle);
    assert_eq!(MarkerStyle::from_str("D"), MarkerStyle::Diamond);
    assert_eq!(MarkerStyle::from_str("d"), MarkerStyle::Diamond);
    assert_eq!(MarkerStyle::from_str("*"), MarkerStyle::Star);
    assert_eq!(MarkerStyle::from_str("O"), MarkerStyle::NoMarker);
    assert_eq!(MarkerStyle::from_str("none"), MarkerStyle::NoMarker);
}

#[test]
fn step_where() {
    assert_eq!(StepWhere::from_str("PRE"), StepWhere::Pre);
    assert_eq!(StepWhere::from_str("middle"), StepWhere::Mid);
    assert_eq!(StepWhere::from_str("mid"), StepWhere::Mid);
    assert_eq!(StepWhere::from_str("post"), StepWhere::Post);
    assert_eq!(StepWhere::from_str("anything"), StepWhere::Post);
}

#[test]
fn arrow_styles() {
    assert_eq!(ArrowStyle::from_str("-|>"), ArrowStyle::FilledHead);
    assert_eq!(ArrowStyle::from_str("<->"), ArrowStyle::DoubleHead);
    assert_eq!(ArrowStyle::from_str("-["), ArrowStyle::Bracket);
    assert_eq!(ArrowStyle::from_str("bar"), ArrowStyle::Bar);
    assert_eq!(ArrowStyle::from_str("wedge"), ArrowStyle::Wedge);
    assert_eq!(ArrowStyle::from_str("<-"), ArrowStyle::Reverse);
    assert_eq!(ArrowStyle::from_str("fancy"), ArrowStyle::Simple);
}

#[test]
fn axes_keywords() {
    assert_eq!(TickDirection::from_str("IN"), TickDirection::In);
    assert_eq!(TickDirection::from_str("inout"), TickDirection::InOut);
    assert_eq!(TickDirection::from_str("out"), TickDirection::Out);
    assert_eq!(GridWhich::from_str("Minor"), GridWhich::Minor);
    assert_eq!(GridWhich::from_str("both"), GridWhich::Both);
    assert_eq!(GridWhich::from_str("x"), GridWhich::Major);
    assert_eq!(AxisScale::from_name("LOG"), AxisScale::Log);
    assert_eq!(AxisScale::from_name("symlog"), AxisScale::Linear);
    assert_eq!(AspectRatio::from_name("Equal"), AspectRatio::Equal);
    assert_eq!(AspectRatio::from_name("auto"), AspectRatio::Auto);
    assert_eq!(spine_index("top"), Some(0));
    assert_eq!(spine_index("left"), Some(3));
    assert_eq!(spine_index("Top"), None);
}

#[test]
fn plain_enums_and_table() {
    let t = TableData {
        cell_text: vec![vec!["a".to_string()]],
        col_labels: None,
        row_labels: Some(vec!["r".to_string()]),
        loc: "bottom".to_string(),
    };
    assert_eq!(t.cell_text[0][0], "a");
    assert_ne!(ImageInterpolation::Nearest, ImageInterpolation::Lanczos);
    assert_ne!(TextAnchorX::Left, TextAnchorX::Right);
    assert_ne!(TextAnchorY::Top, TextAnchorY::Baseline);
}

#[test]
fn tab10_cycle_repeats() {
    assert_eq!(tab10_color(0), Color::new(31, 119, 180, 255));
    assert_eq!(tab10_color(9), Color::new(23, 190, 207, 255));
    assert_eq!(tab10_color(10), tab10_color(0));
    assert_eq!(tab10_color(23), tab10_color(3));
    for i in 0..30 {
        assert_eq!(tab10_color(i).a, 255);
    }
}

#[test]
fn pie_colors_follow_cycle() {
    let v = pie_default_colors(12);
    assert_eq!(v.len(), 12);
    assert_eq!(v[1], Color::new(255, 127, 14, 255));
    assert_eq!(v[11], v[1]);
    assert!(pie_default_colors(0).is_empty());
}

#[test]
fn colormap_names() {
    assert_eq!(split_colormap_name("viridis_r"), ("viridis".to_string(), true));
    assert_eq!(split_colormap_name("viridis"), ("viridis".to_string(), false));
    assert_eq!(split_colormap_name("_r"), ("".to_string(), true));
    assert_eq!(split_colormap_name("r"), ("r".to_string(), false));
}

#[test]
fn colormap_names_select_maps() {
    assert_eq!(Colormap::from_name("gray"), Colormap::Gray);
    assert_eq!(Colormap::from_name("grey"), Colormap::Gray);
    assert_eq!(Colormap::from_name("gist_heat"), Colormap::GistHeat);
    assert_eq!(Colormap::from_name("CMRmap"), Colormap::CMRmap);
    assert_eq!(Colormap::from_name("tab20b"), Colormap::Tab20b);
    assert_eq!(Colormap::from_name("YlOrRd"), Colormap::YlOrRd);
    // names are matched exactly; unknown ones fall back to viridis
    assert_eq!(Colormap::from_name("ylorrd"), Colormap::Viridis);
    assert_eq!(Colormap::from_name("nosuchmap"), Colormap::Viridis);
    assert_eq!(colormap_choice("hot_r"), (Colormap::Hot, true));
    assert_eq!(colormap_choice("twilight_shifted"), (Colormap::TwilightShifted, false));
    assert_eq!(colormap_choice("_r"), (Colormap::Viridis, true));
}

#[test]
fn color_cycle_hands_out_tab10_in_order() {
    let mut cycle = ColorCycle::new();
    let first = cycle.next_color();
    assert_eq!(first, Color::new(31, 119, 180, 255));
    assert_eq!(cycle.next_color(), Color::new(255, 127, 14, 255));
    for _ in 0..8 {
        cycle.next_color();
    }
    assert_eq!(cycle.index, 10);
    assert_eq!(cycle.next_color(), first);
}
