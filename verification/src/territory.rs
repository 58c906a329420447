//! Territories: named polygonal regions with owner and army-count metadata
//! and a selection flag, owning the hit-test predicate and the derived
//! display color.

use vstd::prelude::*;
use crate::geometry::{Point, point_in_polygon, polygon_contains};

verus! {

/// The color a territory is drawn with, derived purely from its owner and
/// selection flag: a selected territory is highlighted in yellow; otherwise
/// owner 0 gets blue, owner 1 green, and any other owner the gray fallback.
#[derive(Clone, Copy, PartialEq, Eq, Structural, Debug)]
pub enum DisplayColor {
    Yellow,
    Blue,
    Green,
    Gray,
}

/// The display color that a territory with the given owner and selection
/// flag is owed.
pub open spec fn color_of(owner: usize, selected: bool) -> DisplayColor {
    if selected {
        DisplayColor::Yellow
    } else if owner == 0 {
        DisplayColor::Blue
    } else if owner == 1 {
        DisplayColor::Green
    } else {
        DisplayColor::Gray
    }
}

/// A named polygonal region. The name, vertex polygon, owner and army count
/// are fixed after load; only the selection flag is mutated, and exclusively
/// by the selection controller.
pub struct Territory {
    pub name: String,
    pub vertices: Vec<Point>,
    pub owner: usize,
    pub armies: i32,
    pub selected: bool,
}

/// Whether two territories carry the same display data: everything but the
/// selection flag.
pub open spec fn same_display(a: Territory, b: Territory) -> bool {
    &&& a.name@ == b.name@
    &&& a.vertices@ == b.vertices@
    &&& a.owner == b.owner
    &&& a.armies == b.armies
}

impl Territory {
    /// A well-formed territory is a simple closed polygon, which takes at
    /// least three vertices. The loader rejects records with fewer before
    /// they reach this core.
    pub open spec fn wf(&self) -> bool {
        self.vertices@.len() >= 3
    }

    /// Wraps a loaded record. Malformed records (fewer than three vertices)
    /// must be rejected by the loader first.
    pub fn new(name: String, vertices: Vec<Point>, owner: usize, armies: i32) -> (t: Territory)
        requires
            vertices@.len() >= 3,
        ensures
            t.wf(),
            t.name@ == name@,
            t.vertices@ == vertices@,
            t.owner == owner,
            t.armies == armies,
            !t.selected,
    {
        Territory { name, vertices, owner, armies, selected: false }
    }

    /// Hit test against the pointer position `p`, by the even-odd rule over
    /// this territory's polygon. Pure: no field is touched, and the result
    /// is a function of the vertices and the point alone.
    pub fn contains(&self, p: Point) -> (r: bool)
        requires
            self.wf(),
        ensures
            r == polygon_contains(self.vertices@, p),
    {
        point_in_polygon(&self.vertices, p)
    }

    /// The color this territory is drawn with, derived from its owner and
    /// selection flag.
    pub fn display_color(&self) -> (c: DisplayColor)
        ensures
            c == color_of(self.owner, self.selected),
    {
        if self.selected {
            DisplayColor::Yellow
        } else if self.owner == 0 {
            DisplayColor::Blue
        } else if self.owner == 1 {
            DisplayColor::Green
        } else {
            DisplayColor::Gray
        }
    }
}

} // verus!
