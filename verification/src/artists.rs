//! Style keywords of the plot artists and their default color palettes.
use vstd::prelude::*;
use crate::colors::{Color, opaque};
use crate::strs::{chars_of, lowercase, str_eq, string_of_range, to_lowercase};

verus! {

broadcast use vstd::string::group_string_axioms;

/// How a line is stroked.
#[derive(Debug, Clone, Copy, PartialEq, Eq, Structural)]
pub enum LineStyle {
    Solid,
    Dashed,
    DashDot,
    Dotted,
    /// No line at all.
    NoLine,
}

/// The line style named by a lowercase keyword; unknown keywords are solid.
pub open spec fn spec_line_style(lower: Seq<char>) -> LineStyle {
    if lower == "-"@ || lower == "solid"@ {
        LineStyle::Solid
    } else if lower == "--"@ || lower == "dashed"@ {
        LineStyle::Dashed
    } else if lower == "-."@ || lower == "dashdot"@ {
        LineStyle::DashDot
    } else if lower == ":"@ || lower == "dotted"@ {
        LineStyle::Dotted
    } else if lower == "none"@ || lower == ""@ {
        LineStyle::NoLine
    } else {
        LineStyle::Solid
    }
}

impl LineStyle {
    /// The line style of a keyword, ignoring case (`"-"`, `"solid"`, `"--"`,
    /// `"dashed"`, `"-."`, `"dashdot"`, `":"`, `"dotted"`, `"none"`, `""`).
    pub fn from_str(s: &str) -> (r: Self)
        ensures
            r == spec_line_style(lowercase(s@)),
    {
        let lower = to_lowercase(s);
        Self::from_lowercase(lower.as_str())
    }

    /// The line style of an already lowercased keyword.
    pub fn from_lowercase(lower: &str) -> (r: Self)
        ensures
            r == spec_line_style(lower@),
    {
        if str_eq(lower, "-") || str_eq(lower, "solid") {
            LineStyle::Solid
        } else if str_eq(lower, "--") || str_eq(lower, "dashed") {
            LineStyle::Dashed
        } else if str_eq(lower, "-.") || str_eq(lower, "dashdot") {
            LineStyle::DashDot
        } else if str_eq(lower, ":") || str_eq(lower, "dotted") {
            LineStyle::Dotted
        } else if str_eq(lower, "none") || str_eq(lower, "") {
            LineStyle::NoLine
        } else {
            LineStyle::Solid
        }
    }
}

/// The marker drawn at each data point.
#[derive(Debug, Clone, Copy, PartialEq, Eq, Structural)]
pub enum MarkerStyle {
    /// No marker.
    NoMarker,
    Point,
    Circle,
    Square,
    TriangleUp,
    TriangleDown,
    Plus,
    Cross,
    Diamond,
    Star,
}

/// The marker named by a (case-sensitive) marker code; unknown codes draw none.
pub open spec fn spec_marker_style(s: Seq<char>) -> MarkerStyle {
    if s == "."@ {
        MarkerStyle::Point
    } else if s == "o"@ {
        MarkerStyle::Circle
    } else if s == "s"@ {
        MarkerStyle::Square
    } else if s == "^"@ {
        MarkerStyle::TriangleUp
    } else if s == "v"@ {
        MarkerStyle::TriangleDown
    } else if s == "+"@ {
        MarkerStyle::Plus
    } else if s == "x"@ {
        MarkerStyle::Cross
    } else if s == "D"@ || s == "d"@ {
        MarkerStyle::Diamond
    } else if s == "*"@ {
        MarkerStyle::Star
    } else {
        MarkerStyle::NoMarker
    }
}

impl MarkerStyle {
    /// The marker of a marker code (`.`, `o`, `s`, `^`, `v`, `+`, `x`, `D`/`d`, `*`).
    pub fn from_str(s: &str) -> (r: Self)
        ensures
            r == spec_marker_style(s@),
    {
        if str_eq(s, ".") {
            MarkerStyle::Point
        } else if str_eq(s, "o") {
            MarkerStyle::Circle
        } else if str_eq(s, "s") {
            MarkerStyle::Square
        } else if str_eq(s, "^") {
            MarkerStyle::TriangleUp
        } else if str_eq(s, "v") {
            MarkerStyle::TriangleDown
        } else if str_eq(s, "+") {
            MarkerStyle::Plus
        } else if str_eq(s, "x") {
            MarkerStyle::Cross
        } else if str_eq(s, "D") || str_eq(s, "d") {
            MarkerStyle::Diamond
        } else if str_eq(s, "*") {
            MarkerStyle::Star
        } else {
            MarkerStyle::NoMarker
        }
    }
}

/// Where the step of a step plot is placed.
#[derive(Debug, Clone, Copy, PartialEq, Eq, Structural)]
pub enum StepWhere {
    Pre,
    Post,
    Mid,
}

/// The step placement of a lowercase keyword; anything else is `Post`.
pub open spec fn spec_step_where(lower: Seq<char>) -> StepWhere {
    if lower == "pre"@ {
        StepWhere::Pre
    } else if lower == "mid"@ || lower == "middle"@ {
        StepWhere::Mid
    } else {
        StepWhere::Post
    }
}

impl StepWhere {
    /// The step placement of a keyword, ignoring case (`"pre"`, `"mid"`,
    /// `"middle"`; anything else is `Post`).
    pub fn from_str(s: &str) -> (r: Self)
        ensures
            r == spec_step_where(lowercase(s@)),
    {
        let lower = to_lowercase(s);
        Self::from_lowercase(lower.as_str())
    }

    /// The step placement of an already lowercased keyword.
    pub fn from_lowercase(lower: &str) -> (r: Self)
        ensures
            r == spec_step_where(lower@),
    {
        if str_eq(lower, "pre") {
            StepWhere::Pre
        } else if str_eq(lower, "mid") || str_eq(lower, "middle") {
            StepWhere::Mid
        } else {
            StepWhere::Post
        }
    }
}

/// Arrow head style of a fancy arrow.
#[derive(Debug, Clone, Copy, PartialEq, Eq, Structural)]
pub enum ArrowStyle {
    /// `->` simple arrow
    Simple,
    /// `-|>` filled triangle head
    FilledHead,
    /// `<-` reverse arrow
    Reverse,
    /// `<->` double-headed
    DoubleHead,
    /// `-[` bracket
    Bracket,
    /// `|-` bar head
    Bar,
    /// wedge (wider at base)
    Wedge,
}

/// The arrow style of a code or name; unknown ones are `Simple`.
pub open spec fn spec_arrow_style(s: Seq<char>) -> ArrowStyle {
    if s == "->"@ || s == "simple"@ {
        ArrowStyle::Simple
    } else if s == "-|>"@ || s == "filledhead"@ {
        ArrowStyle::FilledHead
    } else if s == "<-"@ || s == "reverse"@ {
        ArrowStyle::Reverse
    } else if s == "<->"@ || s == "doublehead"@ {
        ArrowStyle::DoubleHead
    } else if s == "-["@ || s == "bracket"@ {
        ArrowStyle::Bracket
    } else if s == "|-"@ || s == "bar"@ {
        ArrowStyle::Bar
    } else if s == "wedge"@ {
        ArrowStyle::Wedge
    } else {
        ArrowStyle::Simple
    }
}

impl ArrowStyle {
    /// The arrow style of a code (`->`, `-|>`, `<-`, `<->`, `-[`, `|-`) or name.
    pub fn from_str(s: &str) -> (r: Self)
        ensures
            r == spec_arrow_style(s@),
    {
        if str_eq(s, "->") || str_eq(s, "simple") {
            ArrowStyle::Simple
        } else if str_eq(s, "-|>") || str_eq(s, "filledhead") {
            ArrowStyle::FilledHead
        } else if str_eq(s, "<-") || str_eq(s, "reverse") {
            ArrowStyle::Reverse
        } else if str_eq(s, "<->") || str_eq(s, "doublehead") {
            ArrowStyle::DoubleHead
        } else if str_eq(s, "-[") || str_eq(s, "bracket") {
            ArrowStyle::Bracket
        } else if str_eq(s, "|-") || str_eq(s, "bar") {
            ArrowStyle::Bar
        } else if str_eq(s, "wedge") {
            ArrowStyle::Wedge
        } else {
            ArrowStyle::Simple
        }
    }
}

/// How an image is resampled to the screen.
#[derive(Debug, Clone, Copy, PartialEq, Eq, Structural)]
pub enum ImageInterpolation {
    /// no interpolation
    Nearest,
    /// smooth blending between adjacent pixels
    Bilinear,
    /// smoother interpolation using a cubic kernel
    Bicubic,
    /// sharp interpolation using the sinc-based Lanczos kernel (a=3)
    Lanczos,
}

/// The ten colors of the default (tab10) cycle: blue, orange, green, red,
/// purple, brown, pink, gray, olive, cyan.
pub open spec fn tab10(i: int) -> Color {
    if i == 0 {
        opaque(31, 119, 180)
    } else if i == 1 {
        opaque(255, 127, 14)
    } else if i == 2 {
        opaque(44, 160, 44)
    } else if i == 3 {
        opaque(214, 39, 40)
    } else if i == 4 {
        opaque(148, 103, 189)
    } else if i == 5 {
        opaque(140, 86, 75)
    } else if i == 6 {
        opaque(227, 119, 194)
    } else if i == 7 {
        opaque(127, 127, 127)
    } else if i == 8 {
        opaque(188, 189, 34)
    } else {
        opaque(23, 190, 207)
    }
}

/// The `index`-th color of the default cycle, which repeats every ten colors.
pub fn tab10_color(index: usize) -> (c: Color)
    ensures
        c == tab10(index as int % 10),
{
    let i = index % 10;
    if i == 0 {
        Color::new(31, 119, 180, 255)
    } else if i == 1 {
        Color::new(255, 127, 14, 255)
    } else if i == 2 {
        Color::new(44, 160, 44, 255)
    } else if i == 3 {
        Color::new(214, 39, 40, 255)
    } else if i == 4 {
        Color::new(148, 103, 189, 255)
    } else if i == 5 {
        Color::new(140, 86, 75, 255)
    } else if i == 6 {
        Color::new(227, 119, 194, 255)
    } else if i == 7 {
        Color::new(127, 127, 127, 255)
    } else if i == 8 {
        Color::new(188, 189, 34, 255)
    } else {
        Color::new(23, 190, 207, 255)
    }
}

/// Default colors for `count` pie wedges: the tab10 cycle from its start.
pub fn pie_default_colors(count: usize) -> (v: Vec<Color>)
    ensures
        v@.len() == count,
        forall|i: int| 0 <= i < count ==> #[trigger] v@[i] == tab10(i % 10),
{
    let mut v: Vec<Color> = Vec::new();
    let mut i: usize = 0;
    while i < count
        invariant
            i <= count,
            v@.len() == i,
            forall|j: int| 0 <= j < i ==> #[trigger] v@[j] == tab10(j % 10),
        decreases count - i,
    {
        v.push(tab10_color(i));
        i += 1;
    }
    v
}

/// The default color cycle of a set of axes: how many colors it has handed
/// out so far.
pub struct ColorCycle {
    pub index: usize,
}

impl ColorCycle {
    /// A cycle that starts at its first color.
    pub fn new() -> (r: Self)
        ensures
            r.index == 0,
    {
        ColorCycle { index: 0 }
    }

    /// The next color of the cycle; the cycle moves on by one.
    pub fn next_color(&mut self) -> (c: Color)
        requires
            old(self).index < usize::MAX,
        ensures
            c == tab10(old(self).index as int % 10),
            final(self).index == old(self).index + 1,
    {
        let c = tab10_color(self.index);
        self.index = self.index + 1;
        c
    }
}

/// The cycle of default colors repeats every ten colors and never yields a
/// transparent color.
pub proof fn law_tab10_cycle(i: int)
    requires
        0 <= i,
    ensures
        tab10((i + 10) % 10) == tab10(i % 10),
        tab10(i % 10).a == 255,
{
}

/// A colormap name ending in `_r` names the reversed colormap of the name
/// without that suffix.
pub open spec fn spec_colormap_name(name: Seq<char>) -> (Seq<char>, bool) {
    if name.len() >= 2 && name[name.len() - 2] == '_' && name[name.len() - 1] == 'r' {
        (name.subrange(0, name.len() - 2), true)
    } else {
        (name, false)
    }
}

/// Split a colormap name into its base name and whether it is reversed
/// (a trailing `_r`).
pub fn split_colormap_name(name: &str) -> (r: (String, bool))
    ensures
        (r.0@, r.1) == spec_colormap_name(name@),
{
    let cs = chars_of(name);
    let n = cs.len();
    if n >= 2 && cs[n - 2] == '_' && cs[n - 1] == 'r' {
        (string_of_range(&cs, 0, n - 2), true)
    } else {
        (string_of_range(&cs, 0, n), false)
    }
}

/// The colormaps that can be looked up by name.
#[derive(Debug, Clone, Copy, PartialEq, Eq, Structural)]
pub enum Colormap {
    Gray,
    Hot,
    Cool,
    Jet,
    Blues,
    Reds,
    Greens,
    Plasma,
    Inferno,
    Magma,
    Cividis,
    Twilight,
    Turbo,
    Spring,
    Summer,
    Autumn,
    Winter,
    Copper,
    Bone,
    Pink,
    Binary,
    GistHeat,
    Ocean,
    Terrain,
    YlOrRd,
    YlGnBu,
    RdYlBu,
    RdBu,
    PiYG,
    PRGn,
    BrBG,
    Spectral,
    Set1,
    Set2,
    Set3,
    Pastel1,
    Pastel2,
    Tab20,
    Tab10,
    Tab20b,
    Tab20c,
    Accent,
    Dark2,
    Paired,
    Oranges,
    Purples,
    YlOrBr,
    YlGn,
    GnBu,
    PuBu,
    PuRd,
    OrRd,
    BuGn,
    BuPu,
    Wistia,
    Afmhot,
    Rainbow,
    GistRainbow,
    Gnuplot,
    Gnuplot2,
    CMRmap,
    Cubehelix,
    Brg,
    GistEarth,
    GistStern,
    GistNcar,
    TwilightShifted,
    Hsv,
    Coolwarm,
    Bwr,
    Seismic,
    PuOr,
    RdGy,
    RdYlGn,
    Greys,
    PuBuGn,
    RdPu,
    GistYarg,
    Flag,
    Prism,
    Viridis,
}

/// The colormap of a (not reversed) name; unknown names give viridis.
pub open spec fn spec_colormap(name: Seq<char>) -> Colormap {
    if name == "gray"@ || name == "grey"@ {
        Colormap::Gray
    } else if name == "hot"@ {
        Colormap::Hot
    } else if name == "cool"@ {
        Colormap::Cool
    } else if name == "jet"@ {
        Colormap::Jet
    } else if name == "Blues"@ {
        Colormap::Blues
    } else if name == "Reds"@ {
        Colormap::Reds
    } else if name == "Greens"@ {
        Colormap::Greens
    } else if name == "plasma"@ {
        Colormap::Plasma
    } else if name == "inferno"@ {
        Colormap::Inferno
    } else if name == "magma"@ {
        Colormap::Magma
    } else if name == "cividis"@ {
        Colormap::Cividis
    } else if name == "twilight"@ {
        Colormap::Twilight
    } else if name == "turbo"@ {
        Colormap::Turbo
    } else if name == "spring"@ {
        Colormap::Spring
    } else if name == "summer"@ {
        Colormap::Summer
    } else if name == "autumn"@ {
        Colormap::Autumn
    } else if name == "winter"@ {
        Colormap::Winter
    } else if name == "copper"@ {
        Colormap::Copper
    } else if name == "bone"@ {
        Colormap::Bone
    } else if name == "pink"@ {
        Colormap::Pink
    } else if name == "binary"@ {
        Colormap::Binary
    } else if name == "gist_heat"@ {
        Colormap::GistHeat
    } else if name == "ocean"@ {
        Colormap::Ocean
    } else if name == "terrain"@ {
        Colormap::Terrain
    } else if name == "YlOrRd"@ {
        Colormap::YlOrRd
    } else if name == "YlGnBu"@ {
        Colormap::YlGnBu
    } else if name == "RdYlBu"@ {
        Colormap::RdYlBu
    } else if name == "RdBu"@ {
        Colormap::RdBu
    } else if name == "PiYG"@ {
        Colormap::PiYG
    } else if name == "PRGn"@ {
        Colormap::PRGn
    } else if name == "BrBG"@ {
        Colormap::BrBG
    } else if name == "Spectral"@ {
        Colormap::Spectral
    } else if name == "Set1"@ {
        Colormap::Set1
    } else if name == "Set2"@ {
        Colormap::Set2
    } else if name == "Set3"@ {
        Colormap::Set3
    } else if name == "Pastel1"@ {
        Colormap::Pastel1
    } else if name == "Pastel2"@ {
        Colormap::Pastel2
    } else if name == "tab20"@ {
        Colormap::Tab20
    } else if name == "tab10"@ {
        Colormap::Tab10
    } else if name == "tab20b"@ {
        Colormap::Tab20b
    } else if name == "tab20c"@ {
        Colormap::Tab20c
    } else if name == "Accent"@ {
        Colormap::Accent
    } else if name == "Dark2"@ {
        Colormap::Dark2
    } else if name == "Paired"@ {
        Colormap::Paired
    } else if name == "Oranges"@ {
        Colormap::Oranges
    } else if name == "Purples"@ {
        Colormap::Purples
    } else if name == "YlOrBr"@ {
        Colormap::YlOrBr
    } else if name == "YlGn"@ {
        Colormap::YlGn
    } else if name == "GnBu"@ {
        Colormap::GnBu
    } else if name == "PuBu"@ {
        Colormap::PuBu
    } else if name == "PuRd"@ {
        Colormap::PuRd
    } else if name == "OrRd"@ {
        Colormap::OrRd
    } else if name == "BuGn"@ {
        Colormap::BuGn
    } else if name == "BuPu"@ {
        Colormap::BuPu
    } else if name == "Wistia"@ {
        Colormap::Wistia
    } else if name == "afmhot"@ {
        Colormap::Afmhot
    } else if name == "rainbow"@ {
        Colormap::Rainbow
    } else if name == "gist_rainbow"@ {
        Colormap::GistRainbow
    } else if name == "gnuplot"@ {
        Colormap::Gnuplot
    } else if name == "gnuplot2"@ {
        Colormap::Gnuplot2
    } else if name == "CMRmap"@ {
        Colormap::CMRmap
    } else if name == "cubehelix"@ {
        Colormap::Cubehelix
    } else if name == "brg"@ {
        Colormap::Brg
    } else if name == "gist_earth"@ {
        Colormap::GistEarth
    } else if name == "gist_stern"@ {
        Colormap::GistStern
    } else if name == "gist_ncar"@ {
        Colormap::GistNcar
    } else if name == "twilight_shifted"@ {
        Colormap::TwilightShifted
    } else if name == "hsv"@ {
        Colormap::Hsv
    } else if name == "coolwarm"@ {
        Colormap::Coolwarm
    } else if name == "bwr"@ {
        Colormap::Bwr
    } else if name == "seismic"@ {
        Colormap::Seismic
    } else if name == "PuOr"@ {
        Colormap::PuOr
    } else if name == "RdGy"@ {
        Colormap::RdGy
    } else if name == "RdYlGn"@ {
        Colormap::RdYlGn
    } else if name == "Greys"@ {
        Colormap::Greys
    } else if name == "PuBuGn"@ {
        Colormap::PuBuGn
    } else if name == "RdPu"@ {
        Colormap::RdPu
    } else if name == "gist_yarg"@ {
        Colormap::GistYarg
    } else if name == "flag"@ {
        Colormap::Flag
    } else if name == "prism"@ {
        Colormap::Prism
    } else {
        Colormap::Viridis
    }
}

impl Colormap {
    /// The colormap of a (not reversed) name, matched exactly; unknown names
    /// give viridis.
    pub fn from_name(name: &str) -> (r: Self)
        ensures
            r == spec_colormap(name@),
    {
        if str_eq(name, "gray") || str_eq(name, "grey") {
            Colormap::Gray
        } else if str_eq(name, "hot") {
            Colormap::Hot
        } else if str_eq(name, "cool") {
            Colormap::Cool
        } else if str_eq(name, "jet") {
            Colormap::Jet
        } else if str_eq(name, "Blues") {
            Colormap::Blues
        } else if str_eq(name, "Reds") {
            Colormap::Reds
        } else if str_eq(name, "Greens") {
            Colormap::Greens
        } else if str_eq(name, "plasma") {
            Colormap::Plasma
        } else if str_eq(name, "inferno") {
            Colormap::Inferno
        } else if str_eq(name, "magma") {
            Colormap::Magma
        } else if str_eq(name, "cividis") {
            Colormap::Cividis
        } else if str_eq(name, "twilight") {
            Colormap::Twilight
        } else if str_eq(name, "turbo") {
            Colormap::Turbo
        } else if str_eq(name, "spring") {
            Colormap::Spring
        } else if str_eq(name, "summer") {
            Colormap::Summer
        } else if str_eq(name, "autumn") {
            Colormap::Autumn
        } else if str_eq(name, "winter") {
            Colormap::Winter
        } else if str_eq(name, "copper") {
            Colormap::Copper
        } else if str_eq(name, "bone") {
            Colormap::Bone
        } else if str_eq(name, "pink") {
            Colormap::Pink
        } else if str_eq(name, "binary") {
            Colormap::Binary
        } else if str_eq(name, "gist_heat") {
            Colormap::GistHeat
        } else if str_eq(name, "ocean") {
            Colormap::Ocean
        } else if str_eq(name, "terrain") {
            Colormap::Terrain
        } else if str_eq(name, "YlOrRd") {
            Colormap::YlOrRd
        } else if str_eq(name, "YlGnBu") {
            Colormap::YlGnBu
        } else if str_eq(name, "RdYlBu") {
            Colormap::RdYlBu
        } else if str_eq(name, "RdBu") {
            Colormap::RdBu
        } else if str_eq(name, "PiYG") {
            Colormap::PiYG
        } else if str_eq(name, "PRGn") {
            Colormap::PRGn
        } else if str_eq(name, "BrBG") {
            Colormap::BrBG
        } else if str_eq(name, "Spectral") {
            Colormap::Spectral
        } else if str_eq(name, "Set1") {
            Colormap::Set1
        } else if str_eq(name, "Set2") {
            Colormap::Set2
        } else if str_eq(name, "Set3") {
            Colormap::Set3
        } else if str_eq(name, "Pastel1") {
            Colormap::Pastel1
        } else if str_eq(name, "Pastel2") {
            Colormap::Pastel2
        } else if str_eq(name, "tab20") {
            Colormap::Tab20
        } else if str_eq(name, "tab10") {
            Colormap::Tab10
        } else if str_eq(name, "tab20b") {
            Colormap::Tab20b
        } else if str_eq(name, "tab20c") {
            Colormap::Tab20c
        } else if str_eq(name, "Accent") {
            Colormap::Accent
        } else if str_eq(name, "Dark2") {
            Colormap::Dark2
        } else if str_eq(name, "Paired") {
            Colormap::Paired
        } else if str_eq(name, "Oranges") {
            Colormap::Oranges
        } else if str_eq(name, "Purples") {
            Colormap::Purples
        } else if str_eq(name, "YlOrBr") {
            Colormap::YlOrBr
        } else if str_eq(name, "YlGn") {
            Colormap::YlGn
        } else if str_eq(name, "GnBu") {
            Colormap::GnBu
        } else if str_eq(name, "PuBu") {
            Colormap::PuBu
        } else if str_eq(name, "PuRd") {
            Colormap::PuRd
        } else if str_eq(name, "OrRd") {
            Colormap::OrRd
        } else if str_eq(name, "BuGn") {
            Colormap::BuGn
        } else if str_eq(name, "BuPu") {
            Colormap::BuPu
        } else if str_eq(name, "Wistia") {
            Colormap::Wistia
        } else if str_eq(name, "afmhot") {
            Colormap::Afmhot
        } else if str_eq(name, "rainbow") {
            Colormap::Rainbow
        } else if str_eq(name, "gist_rainbow") {
            Colormap::GistRainbow
        } else if str_eq(name, "gnuplot") {
            Colormap::Gnuplot
        } else if str_eq(name, "gnuplot2") {
            Colormap::Gnuplot2
        } else if str_eq(name, "CMRmap") {
            Colormap::CMRmap
        } else if str_eq(name, "cubehelix") {
            Colormap::Cubehelix
        } else if str_eq(name, "brg") {
            Colormap::Brg
        } else if str_eq(name, "gist_earth") {
            Colormap::GistEarth
        } else if str_eq(name, "gist_stern") {
            Colormap::GistStern
        } else if str_eq(name, "gist_ncar") {
            Colormap::GistNcar
        } else if str_eq(name, "twilight_shifted") {
            Colormap::TwilightShifted
        } else if str_eq(name, "hsv") {
            Colormap::Hsv
        } else if str_eq(name, "coolwarm") {
            Colormap::Coolwarm
        } else if str_eq(name, "bwr") {
            Colormap::Bwr
        } else if str_eq(name, "seismic") {
            Colormap::Seismic
        } else if str_eq(name, "PuOr") {
            Colormap::PuOr
        } else if str_eq(name, "RdGy") {
            Colormap::RdGy
        } else if str_eq(name, "RdYlGn") {
            Colormap::RdYlGn
        } else if str_eq(name, "Greys") {
            Colormap::Greys
        } else if str_eq(name, "PuBuGn") {
            Colormap::PuBuGn
        } else if str_eq(name, "RdPu") {
            Colormap::RdPu
        } else if str_eq(name, "gist_yarg") {
            Colormap::GistYarg
        } else if str_eq(name, "flag") {
            Colormap::Flag
        } else if str_eq(name, "prism") {
            Colormap::Prism
        } else {
            Colormap::Viridis
        }
    }
}

/// The colormap a name selects and whether it is reversed: a trailing `_r`
/// reverses the colormap of the name without it.
pub fn colormap_choice(name: &str) -> (r: (Colormap, bool))
    ensures
        r == (spec_colormap(spec_colormap_name(name@).0), spec_colormap_name(name@).1),
{
    let (base, reversed) = split_colormap_name(name);
    (Colormap::from_name(base.as_str()), reversed)
}

} // verus!
