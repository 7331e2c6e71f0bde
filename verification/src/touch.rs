//! One finger on the home screen. A row's own scrolling would take the gesture for whichever row
//! it started on and drop the vertical part, so the list decides the axis itself from the first
//! few points of motion.
use vstd::prelude::*;
use vstd::string::*;
use crate::text::{same, text_of};

verus! {

/// Which way a swipe goes.
#[derive(Debug, Clone, Copy, PartialEq, Eq, Structural)]
pub enum Axis {
    /// Along a row.
    Across,
    /// Along the list of rows.
    Along,
}

/// What a swipe, or what is left of it, scrolls.
#[derive(Debug, Clone, Copy, PartialEq, Eq, Structural)]
pub enum Scroll {
    Nothing,
    List,
    Row(usize),
}

/// A touch drag in progress: its axis, once it has picked one, and the row it started on.
#[derive(Debug, Clone, Copy, PartialEq, Eq, Structural)]
pub struct Swipe {
    pub axis: Option<Axis>,
    pub row: Option<usize>,
}

/// What a swipe along an axis scrolls.
pub open spec fn scrolled(axis: Option<Axis>, row: Option<usize>) -> Scroll {
    match (axis, row) {
        (Some(Axis::Along), _) => Scroll::List,
        (Some(Axis::Across), Some(row)) => Scroll::Row(row),
        _ => Scroll::Nothing,
    }
}

impl Swipe {
    pub fn begin(row: Option<usize>) -> (r: Self)
        ensures
            r == (Swipe { axis: None, row }),
    {
        Swipe { axis: None, row }
    }

    /// The axis once the finger has moved on: it is picked when the finger has come far enough,
    /// by which way it mostly went, and then kept.
    pub open spec fn locked(self, far: bool, sideways: bool) -> Option<Axis> {
        match self.axis {
            Some(axis) => Some(axis),
            None => if !far {
                None
            } else if sideways {
                Some(Axis::Across)
            } else {
                Some(Axis::Along)
            },
        }
    }

    /// Takes in that the finger moved, and says what to scroll by as much.
    pub fn drag(&mut self, far: bool, sideways: bool) -> (r: Scroll)
        ensures
            *final(self) == (Swipe { axis: old(self).locked(far, sideways), ..*old(self) }),
            r == scrolled(final(self).axis, old(self).row),
    {
        if self.axis.is_none() && far {
            self.axis = Some(
                if sideways {
                    Axis::Across
                } else {
                    Axis::Along
                },
            );
        }
        self.target()
    }

    /// What the swipe scrolls, and what goes on to scroll when the finger is lifted.
    pub fn target(&self) -> (r: Scroll)
        ensures
            r == scrolled(self.axis, self.row),
    {
        match (self.axis, self.row) {
            (Some(Axis::Along), _) => Scroll::List,
            (Some(Axis::Across), Some(row)) => Scroll::Row(row),
            _ => Scroll::Nothing,
        }
    }
}

/// A swipe that has picked its axis keeps it, wherever the finger goes.
pub proof fn swipes_keep_their_axis(swipe: Swipe, far: bool, sideways: bool)
    ensures
        swipe.axis is Some ==> swipe.locked(far, sideways) == swipe.axis,
        swipe.axis is None && !far ==> swipe.locked(far, sideways) is None,
{
}

/// Whether a pointer over a tile takes the focus: only one that moved between two frames does,
/// so the keyboard keeps it while the mouse rests on a tile; and none while a finger scrolls.
pub fn pointer_takes_focus(moved: bool, swiping: bool, coasting: bool) -> (r: bool)
    ensures
        r == (moved && !swiping && !coasting),
{
    moved && !swiping && !coasting
}

/// Whether an animation that plays goes on: playback follows focus.
pub fn keeps_playing(playing: &Option<String>, wanted: &Option<String>) -> (r: bool)
    ensures
        r == (text_of(*playing) == text_of(*wanted)),
{
    match (playing, wanted) {
        (Some(a), Some(b)) => same(a.as_str(), b.as_str()),
        (None, None) => true,
        _ => false,
    }
}

/// A finger that goes sideways scrolls the row it started on, and one that goes up or down
/// scrolls the list; until it has gone far enough nothing scrolls.
pub proof fn swipes_scroll_along_their_axis(row: Option<usize>, sideways: bool)
    ensures
        ({
            let start = Swipe { axis: None, row };
            &&& scrolled(start.locked(false, sideways), row) == Scroll::Nothing
            &&& scrolled(start.locked(true, false), row) == Scroll::List
            &&& row matches Some(at) ==> scrolled(start.locked(true, true), row) == Scroll::Row(at)
            &&& row is None ==> scrolled(start.locked(true, true), row) == Scroll::Nothing
        }),
{
}

} // verus!
