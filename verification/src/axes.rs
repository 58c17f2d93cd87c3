//! Axis settings given by keywords, and table data of an axes.
use vstd::prelude::*;
use crate::strs::{lowercase, str_eq, to_lowercase};

verus! {

broadcast use vstd::string::group_string_axioms;

/// Axis scale type.
#[derive(Debug, Clone, Copy, PartialEq, Eq, Structural)]
pub enum AxisScale {
    Linear,
    Log,
}

/// The scale of a lowercase scale name: `"log"`, otherwise linear.
pub open spec fn spec_axis_scale(lower: Seq<char>) -> AxisScale {
    if lower == "log"@ {
        AxisScale::Log
    } else {
        AxisScale::Linear
    }
}

impl AxisScale {
    /// The scale a `set_xscale`/`set_yscale` name selects, ignoring case.
    pub fn from_name(s: &str) -> (r: Self)
        ensures
            r == spec_axis_scale(lowercase(s@)),
    {
        let lower = to_lowercase(s);
        Self::from_lowercase(lower.as_str())
    }

    /// The scale of an already lowercased name.
    pub fn from_lowercase(lower: &str) -> (r: Self)
        ensures
            r == spec_axis_scale(lower@),
    {
        if str_eq(lower, "log") {
            AxisScale::Log
        } else {
            AxisScale::Linear
        }
    }
}

/// Aspect ratio mode.
#[derive(Debug, Clone, Copy, PartialEq, Eq, Structural)]
pub enum AspectRatio {
    Auto,
    Equal,
}

/// The aspect mode of a lowercase name: `"equal"`, otherwise automatic.
pub open spec fn spec_aspect_ratio(lower: Seq<char>) -> AspectRatio {
    if lower == "equal"@ {
        AspectRatio::Equal
    } else {
        AspectRatio::Auto
    }
}

impl AspectRatio {
    /// The aspect mode a `set_aspect` name selects, ignoring case.
    pub fn from_name(s: &str) -> (r: Self)
        ensures
            r == spec_aspect_ratio(lowercase(s@)),
    {
        let lower = to_lowercase(s);
        Self::from_lowercase(lower.as_str())
    }

    /// The aspect mode of an already lowercased name.
    pub fn from_lowercase(lower: &str) -> (r: Self)
        ensures
            r == spec_aspect_ratio(lower@),
    {
        if str_eq(lower, "equal") {
            AspectRatio::Equal
        } else {
            AspectRatio::Auto
        }
    }
}

/// Tick direction.
#[derive(Debug, Clone, Copy, PartialEq, Eq, Structural)]
pub enum TickDirection {
    Out,
    In,
    InOut,
}

/// The tick direction of a lowercase keyword; anything else points out.
pub open spec fn spec_tick_direction(lower: Seq<char>) -> TickDirection {
    if lower == "in"@ {
        TickDirection::In
    } else if lower == "inout"@ {
        TickDirection::InOut
    } else {
        TickDirection::Out
    }
}

impl TickDirection {
    /// The tick direction of a keyword, ignoring case (`"in"`, `"inout"`;
    /// anything else is `Out`).
    pub fn from_str(s: &str) -> (r: Self)
        ensures
            r == spec_tick_direction(lowercase(s@)),
    {
        let lower = to_lowercase(s);
        Self::from_lowercase(lower.as_str())
    }

    /// The tick direction of an already lowercased keyword.
    pub fn from_lowercase(lower: &str) -> (r: Self)
        ensures
            r == spec_tick_direction(lower@),
    {
        if str_eq(lower, "in") {
            TickDirection::In
        } else if str_eq(lower, "inout") {
            TickDirection::InOut
        } else {
            TickDirection::Out
        }
    }
}

/// Which grid lines to show.
#[derive(Debug, Clone, Copy, PartialEq, Eq, Structural)]
pub enum GridWhich {
    Major,
    Minor,
    Both,
}

/// The grid selection of a lowercase keyword; anything else is major.
pub open spec fn spec_grid_which(lower: Seq<char>) -> GridWhich {
    if lower == "minor"@ {
        GridWhich::Minor
    } else if lower == "both"@ {
        GridWhich::Both
    } else {
        GridWhich::Major
    }
}

impl GridWhich {
    /// The grid selection of a keyword, ignoring case (`"minor"`, `"both"`;
    /// anything else is `Major`).
    pub fn from_str(s: &str) -> (r: Self)
        ensures
            r == spec_grid_which(lowercase(s@)),
    {
        let lower = to_lowercase(s);
        Self::from_lowercase(lower.as_str())
    }

    /// The grid selection of an already lowercased keyword.
    pub fn from_lowercase(lower: &str) -> (r: Self)
        ensures
            r == spec_grid_which(lower@),
    {
        if str_eq(lower, "minor") {
            GridWhich::Minor
        } else if str_eq(lower, "both") {
            GridWhich::Both
        } else {
            GridWhich::Major
        }
    }
}

/// The spine slot (`[top, right, bottom, left]`) a spine name selects.
pub open spec fn spec_spine_index(which: Seq<char>) -> Option<usize> {
    if which == "top"@ {
        Some(0)
    } else if which == "right"@ {
        Some(1)
    } else if which == "bottom"@ {
        Some(2)
    } else if which == "left"@ {
        Some(3)
    } else {
        None
    }
}

/// The spine slot of a (case-sensitive) spine name, as `set_spine_visible`
/// uses it; other names select none.
pub fn spine_index(which: &str) -> (r: Option<usize>)
    ensures
        r == spec_spine_index(which@),
{
    if str_eq(which, "top") {
        Some(0)
    } else if str_eq(which, "right") {
        Some(1)
    } else if str_eq(which, "bottom") {
        Some(2)
    } else if str_eq(which, "left") {
        Some(3)
    } else {
        None
    }
}

/// Table data to draw on axes.
pub struct TableData {
    pub cell_text: Vec<Vec<String>>,
    pub col_labels: Option<Vec<String>>,
    pub row_labels: Option<Vec<String>>,
    pub loc: String,
}

} // verus!
