//! A single draggable tile: a letter, a position, and per-tile drag and
//! animation state. A tile is a plain data holder; all policy lives in the
//! rack that owns it.

use vstd::prelude::*;

verus! {

/// An animation run in progress: the interpolation step applied once per
/// tick, and how many steps of the run have been taken so far.
///
/// The step vector is fixed when the run starts and is not recomputed while
/// the run is active, so a target that moves during the run does not bend the
/// trajectory until the run ends.
#[derive(Clone, Copy)]
pub struct Anim {
    /// Number of ticks of this run already applied; at least 1 while the
    /// run exists.
    pub steps_taken: u32,
    /// Movement applied to the x coordinate on each tick of the run.
    pub step_x: i64,
    /// Movement applied to the y coordinate on each tick of the run.
    pub step_y: i64,
}

/// One draggable unit: a letter bound to a position, with drag and
/// animation state.
#[derive(Clone, Copy)]
pub struct Tile {
    /// X coordinate of the top-left corner.
    pub x: i64,
    /// Y coordinate of the top-left corner.
    pub y: i64,
    /// Immutable display identity.
    pub letter: char,
    /// True while the tile is under direct pointer control.
    pub dragging: bool,
    /// Offset between the pointer and the tile origin at drag start;
    /// `Some` exactly while `dragging` is true.
    pub grab_offset: Option<(i64, i64)>,
    /// The animation run in progress, or `None` when the tile is at rest or
    /// has not yet been assigned a step.
    pub anim: Option<Anim>,
}

impl Tile {
    /// A tile at rest at the given position.
    pub fn new(x: i64, y: i64, letter: char) -> (t: Tile)
        ensures
            t == (Tile {
                x,
                y,
                letter,
                dragging: false,
                grab_offset: None,
                anim: None,
            }),
    {
        Tile { x, y, letter, dragging: false, grab_offset: None, anim: None }
    }

    /// Unconditionally stores a new position; nothing else changes.
    pub fn set_position(&mut self, x: i64, y: i64)
        ensures
            *final(self) == (Tile { x, y, ..*old(self) }),
    {
        self.x = x;
        self.y = y;
    }
}

} // verus!
