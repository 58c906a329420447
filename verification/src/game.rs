//! The map selection controller: an ordered, fixed collection of
//! territories and at most one selected index, updated on pointer clicks.

use vstd::prelude::*;
use crate::geometry::{Point, polygon_contains};
use crate::territory::{Territory, same_display};

verus! {

/// The last territory, in scan order, among the first `i` whose polygon
/// contains `p`, or none. When polygons overlap, the later-indexed one wins.
pub open spec fn last_hit_upto(ts: Seq<Territory>, p: Point, i: int) -> Option<usize>
    decreases i,
{
    if i <= 0 {
        None
    } else if polygon_contains(ts[i - 1].vertices@, p) {
        Some((i - 1) as usize)
    } else {
        last_hit_upto(ts, p, i - 1)
    }
}

/// The territory a click at `p` resolves to: the last one in collection
/// order whose polygon contains `p`, or none if the click lands on empty
/// space.
pub open spec fn hit_index(ts: Seq<Territory>, p: Point) -> Option<usize> {
    last_hit_upto(ts, p, ts.len() as int)
}

/// Law: the click resolves to an index holding the point such that no
/// later-indexed territory also holds it (last match wins), and to none
/// exactly when no territory holds the point.
pub proof fn lemma_hit_index_last_match(ts: Seq<Territory>, p: Point)
    requires
        ts.len() <= usize::MAX,
    ensures
        match hit_index(ts, p) {
            Some(k) => {
                &&& (k as int) < ts.len()
                &&& polygon_contains(ts[k as int].vertices@, p)
                &&& forall|j: int|
                    k < j < ts.len() ==> !polygon_contains(#[trigger] ts[j].vertices@, p)
            },
            None => forall|j: int|
                0 <= j < ts.len() ==> !polygon_contains(#[trigger] ts[j].vertices@, p),
        },
{
    lemma_last_hit_upto_bounds(ts, p, ts.len() as int);
}

proof fn lemma_last_hit_upto_bounds(ts: Seq<Territory>, p: Point, i: int)
    requires
        i <= ts.len() <= usize::MAX,
    ensures
        match last_hit_upto(ts, p, i) {
            Some(k) => {
                &&& (k as int) < i
                &&& polygon_contains(ts[k as int].vertices@, p)
                &&& forall|j: int| k < j < i ==> !polygon_contains(#[trigger] ts[j].vertices@, p)
            },
            None => forall|j: int| 0 <= j < i ==> !polygon_contains(#[trigger] ts[j].vertices@, p),
        },
    decreases i,
{
    if i > 0 {
        lemma_last_hit_upto_bounds(ts, p, i - 1);
    }
}

/// The whole map: the loaded territories, in their collection order, and the
/// index of the currently selected one, if any.
pub struct GameState {
    pub territories: Vec<Territory>,
    pub selected_territory: Option<usize>,
}

impl GameState {
    /// Every territory in the collection is a well-formed polygon.
    pub open spec fn wf_territories(&self) -> bool {
        forall|i: int| 0 <= i < self.territories@.len() ==> (#[trigger] self.territories@[i]).wf()
    }

    /// The single-selection invariant: `selected_territory` is either none,
    /// with every territory's selection flag cleared, or an in-range index
    /// whose territory is the one territory with its flag set. The flag on
    /// the entity and the index on the controller stay synchronized on every
    /// mutation.
    pub open spec fn inv(&self) -> bool {
        &&& self.wf_territories()
        &&& match self.selected_territory {
            Some(s) => {
                &&& (s as int) < self.territories@.len()
                &&& self.territories@[s as int].selected
                &&& forall|i: int|
                    0 <= i < self.territories@.len() && i != s as int ==> !(
                    #[trigger] self.territories@[i]).selected
            },
            None => forall|i: int|
                0 <= i < self.territories@.len() ==> !(#[trigger] self.territories@[i]).selected,
        }
    }

    /// Builds the controller over an already-loaded collection, with nothing
    /// selected. The loader hands over well-formed polygons with their
    /// selection flags cleared; the collection is never resized afterwards.
    pub fn new(territories: Vec<Territory>) -> (s: GameState)
        requires
            forall|i: int| 0 <= i < territories@.len() ==> (#[trigger] territories@[i]).wf(),
            forall|i: int| 0 <= i < territories@.len() ==> !(#[trigger] territories@[i]).selected,
        ensures
            s.inv(),
            s.territories@ == territories@,
            s.selected_territory is None,
    {
        GameState { territories, selected_territory: None }
    }

    /// Resolves a click at `p`: the last territory in scan order containing
    /// `p` becomes the single selected one and its index is recorded;
    /// a click on empty space deselects everything. Names, polygons, owners
    /// and army counts are untouched, and the single-selection invariant is
    /// preserved.
    pub fn handle_click(&mut self, p: Point)
        requires
            old(self).inv(),
        ensures
            final(self).inv(),
            final(self).territories@.len() == old(self).territories@.len(),
            forall|i: int|
                0 <= i < old(self).territories@.len() ==> same_display(
                    #[trigger] final(self).territories@[i],
                    old(self).territories@[i],
                ),
            final(self).selected_territory == hit_index(old(self).territories@, p),
            forall|i: int|
                0 <= i < final(self).territories@.len() ==> ((
                #[trigger] final(self).territories@[i]).selected <==> hit_index(
                    old(self).territories@,
                    p,
                ) == Some(i as usize)),
    {
        let n = self.territories.len();
        let mut newly: Option<usize> = None;
        let mut i: usize = 0;
        while i < n
            invariant
                *self == *old(self),
                old(self).inv(),
                n == self.territories@.len(),
                i <= n,
                newly == last_hit_upto(self.territories@, p, i as int),
                newly matches Some(k) ==> (k as int) < i,
            decreases n - i,
        {
            if self.territories[i].contains(p) {
                newly = Some(i);
            }
            i = i + 1;
        }
        if let Some(s) = self.selected_territory {
            self.territories[s].selected = false;
        }
        match newly {
            Some(k) => {
                self.territories[k].selected = true;
                self.selected_territory = Some(k);
            },
            None => {
                self.selected_territory = None;
            },
        }
    }

    /// Read-only accessor for the display layer: the index of the selected
    /// territory, or none.
    pub fn current_selection(&self) -> (r: Option<usize>)
        ensures
            r == self.selected_territory,
    {
        self.selected_territory
    }

    /// Read-only accessor for the overlay text: the selected territory's
    /// name and army count, or none when nothing is selected.
    pub fn selection_display(&self) -> (r: Option<(String, i32)>)
        requires
            self.selected_territory matches Some(s) ==> (s as int) < self.territories@.len(),
        ensures
            r is Some <==> self.selected_territory is Some,
            r matches Some(d) ==> self.selected_territory matches Some(s) && d.0@
                == self.territories@[s as int].name@ && d.1 == self.territories@[s as int].armies,
    {
        match self.selected_territory {
            Some(s) => {
                let t = &self.territories[s];
                Some((t.name.clone(), t.armies))
            },
            None => None,
        }
    }
}

/// Law: under the single-selection invariant, no two distinct territories
/// are selected at once, and a selected territory's index is exactly the
/// recorded one.
pub proof fn lemma_at_most_one_selected(s: GameState)
    requires
        s.inv(),
    ensures
        forall|i: int, j: int|
            0 <= i < s.territories@.len() && 0 <= j < s.territories@.len()
                && (#[trigger] s.territories@[i]).selected && (
            #[trigger] s.territories@[j]).selected ==> i == j,
        forall|i: int|
            0 <= i < s.territories@.len() && (#[trigger] s.territories@[i]).selected
                ==> s.selected_territory == Some(i as usize),
{
}

} // verus!
