//! The rack: an ordered, fixed-size sequence of tiles with fixed slot
//! geometry. It owns the drag, reorder and animation algorithms.
//!
//! Coordinates are integers in an arbitrary unit chosen by the caller; a
//! caller that works in fractional pixels picks a fixed-point scale and
//! converts at the boundary. All positions the rack ever produces stay
//! within a few multiples of [`COORD_LIMIT`], which keeps every intermediate
//! sum far away from the `i64` range ends.

use vstd::prelude::*;
use crate::tile::{Anim, Tile};

verus! {

/// Bound on the coordinate space. The rack origin, the slot geometry and
/// every position handed to the rack must stay within small multiples of
/// this, which leaves ample headroom in an `i64` for the arithmetic of the
/// engine.
pub const COORD_LIMIT: i64 = 0x4000_0000_0000;

/// Why a rack operation was rejected.
#[derive(Clone, Copy, Debug, PartialEq, Eq, Structural)]
pub enum RackError {
    /// Construction from an empty letter sequence: the rack would have no
    /// slot geometry.
    EmptyLetters,
    /// Construction with a non-positive tile width or height, or a negative
    /// spacing: the slot geometry would be undefined.
    InvalidGeometry,
    /// `begin_drag` while another tile is already being dragged.
    DragInProgress,
    /// `begin_drag` with a slot index outside the rack.
    IndexOutOfRange,
}

/// An ordered collection of tiles with fixed slot geometry.
///
/// Slot `i`'s resting position is `(origin_x + i * (tile_width + spacing),
/// origin_y)`. The tile sequence's order defines the slot assignment; its
/// length never changes after construction.
pub struct Rack {
    /// X coordinate of slot 0.
    pub origin_x: i64,
    /// Y coordinate of every resting slot.
    pub origin_y: i64,
    /// The tiles, in slot order.
    pub tiles: Vec<Tile>,
    /// Number of slots; equal to `tiles.len()` at all times.
    pub size: usize,
    /// Width of one tile.
    pub tile_width: i64,
    /// Height of one tile.
    pub tile_height: i64,
    /// Horizontal gap between neighbouring slots.
    pub spacing: i64,
    /// Number of interpolation steps of an animation run; `0` disables
    /// animation and every position change becomes an immediate snap.
    pub animation_steps: u32,
}

/// Truncating division (rounding toward zero), the rounding Rust's `/`
/// performs on machine integers.
pub open spec fn div_trunc(a: int, b: int) -> int
    recommends
        b > 0,
{
    if a >= 0 {
        a / b
    } else {
        -((-a) / b)
    }
}

/// Index of the first tile at or after `k` that is being dragged.
pub open spec fn first_dragging_at(tiles: Seq<Tile>, k: int) -> Option<int>
    recommends
        0 <= k <= tiles.len(),
    decreases tiles.len() - k when 0 <= k <= tiles.len()
{
    if k >= tiles.len() {
        None
    } else if tiles[k].dragging {
        Some(k)
    } else {
        first_dragging_at(tiles, k + 1)
    }
}

/// What `first_dragging_at` returns: the first dragging index at or after
/// `k`, or `None` when no tile from `k` on is dragging.
pub proof fn lemma_first_dragging_at(tiles: Seq<Tile>, k: int)
    requires
        0 <= k <= tiles.len(),
    ensures
        match first_dragging_at(tiles, k) {
            Some(d) => k <= d < tiles.len() && tiles[d].dragging && forall|j: int|
                k <= j < d ==> !(#[trigger] tiles[j]).dragging,
            None => forall|j: int| k <= j < tiles.len() ==> !(#[trigger] tiles[j]).dragging,
        },
    decreases tiles.len() - k,
{
    if k < tiles.len() && !tiles[k].dragging {
        lemma_first_dragging_at(tiles, k + 1);
    }
}

/// Steps already taken of the tile's animation run; `0` when no run exists.
pub open spec fn anim_taken(t: Tile) -> int {
    match t.anim {
        Some(a) => a.steps_taken as int,
        None => 0,
    }
}

/// Per-tile well-formedness, relative to the rack's step count. The bounds
/// keep all engine arithmetic inside `i64`:
/// - a tile at rest (or freshly dragged) lies within `3 * COORD_LIMIT`;
/// - an animating tile has at most `6 * COORD_LIMIT` of movement left in its
///   run, and its position plus that remaining movement stays within
///   `9 * COORD_LIMIT`.
pub open spec fn tile_ok(t: Tile, steps: u32) -> bool {
    &&& t.grab_offset is Some <==> t.dragging
    &&& match t.anim {
        None => {
            &&& -3 * COORD_LIMIT <= t.x <= 3 * COORD_LIMIT
            &&& -3 * COORD_LIMIT <= t.y <= 3 * COORD_LIMIT
        },
        Some(a) => {
            &&& 1 <= a.steps_taken <= steps
            &&& (steps - a.steps_taken) * vstd::math::abs(a.step_x as int) <= 6 * COORD_LIMIT
            &&& (steps - a.steps_taken) * vstd::math::abs(a.step_y as int) <= 6 * COORD_LIMIT
            &&& vstd::math::abs(t.x as int) + (steps - a.steps_taken) * vstd::math::abs(
                a.step_x as int,
            ) <= 9 * COORD_LIMIT
            &&& vstd::math::abs(t.y as int) + (steps - a.steps_taken) * vstd::math::abs(
                a.step_y as int,
            ) <= 9 * COORD_LIMIT
        },
    }
}

impl Rack {
    /// Distance between the x coordinates of two neighbouring slots.
    pub open spec fn pitch(self) -> int {
        self.tile_width + self.spacing
    }

    /// Resting x coordinate of slot `i`.
    pub open spec fn slot_x(self, i: int) -> int {
        self.origin_x + i * self.pitch()
    }

    /// The slot index an arbitrary x coordinate maps to: the nearest slot
    /// centre by truncating division after a half-width centering offset,
    /// clamped into `[0, size - 1]`.
    pub open spec fn target_index_of(self, x: int) -> int {
        let off = x - self.origin_x + self.tile_width / 2;
        if off < 0 {
            0
        } else if off / self.pitch() > self.size - 1 {
            self.size - 1
        } else {
            off / self.pitch()
        }
    }

    /// Well-formedness: established by the constructor and preserved by
    /// every rack operation. Among other things it states the two rack
    /// invariants: the tile count equals `size` forever, and at most one
    /// tile is dragging at any time.
    pub open spec fn wf(self) -> bool {
        &&& self.tiles@.len() == self.size
        &&& 1 <= self.size
        &&& 1 <= self.tile_width <= COORD_LIMIT
        &&& 1 <= self.tile_height <= COORD_LIMIT
        &&& 0 <= self.spacing
        &&& self.pitch() <= COORD_LIMIT
        &&& -COORD_LIMIT <= self.origin_x <= COORD_LIMIT
        &&& -COORD_LIMIT <= self.origin_y <= COORD_LIMIT
        &&& (self.size as int) * self.pitch() <= COORD_LIMIT
        &&& forall|i: int|
            0 <= i < self.tiles@.len() ==> tile_ok(#[trigger] self.tiles@[i], self.animation_steps)
        &&& forall|i: int, j: int|
            0 <= i < j < self.tiles@.len() ==> !(self.tiles@[i].dragging
                && self.tiles@[j].dragging)
        &&& self.animation_steps == 0 ==> forall|i: int|
            0 <= i < self.tiles@.len() ==> (#[trigger] self.tiles@[i]).anim is None
    }

    /// Builds a rack from an initial letter sequence, placing the tiles at
    /// their resting slots left to right.
    ///
    /// Rejects an empty letter sequence and degenerate slot geometry;
    /// everything else about the inputs is a machine-size limit stated in
    /// the `requires`.
    pub fn new(
        origin_x: i64,
        origin_y: i64,
        letters: Vec<char>,
        tile_width: i64,
        tile_height: i64,
        spacing: i64,
        animation_steps: u32,
    ) -> (r: Result<Rack, RackError>)
        requires
            -COORD_LIMIT <= origin_x <= COORD_LIMIT,
            -COORD_LIMIT <= origin_y <= COORD_LIMIT,
            tile_width <= COORD_LIMIT,
            tile_height <= COORD_LIMIT,
            tile_width + spacing <= COORD_LIMIT,
            letters@.len() * (tile_width + spacing) <= COORD_LIMIT,
        ensures
            match r {
                Ok(rack) => {
                    &&& letters@.len() >= 1
                    &&& tile_width >= 1 && tile_height >= 1 && spacing >= 0
                    &&& rack.wf()
                    &&& rack.origin_x == origin_x
                    &&& rack.origin_y == origin_y
                    &&& rack.size == letters@.len()
                    &&& rack.tile_width == tile_width
                    &&& rack.tile_height == tile_height
                    &&& rack.spacing == spacing
                    &&& rack.animation_steps == animation_steps
                    &&& forall|i: int|
                        0 <= i < letters@.len() ==> #[trigger] rack.tiles@[i] == (Tile {
                            x: rack.slot_x(i) as i64,
                            y: origin_y,
                            letter: letters@[i],
                            dragging: false,
                            grab_offset: None,
                            anim: None,
                        })
                },
                Err(RackError::EmptyLetters) => letters@.len() == 0,
                Err(RackError::InvalidGeometry) => letters@.len() >= 1 && (tile_width < 1
                    || tile_height < 1 || spacing < 0),
                Err(_) => false,
            },
    {
        if letters.len() == 0 {
            return Err(RackError::EmptyLetters);
        }
        if tile_width < 1 || tile_height < 1 || spacing < 0 {
            return Err(RackError::InvalidGeometry);
        }
        let pitch: i64 = tile_width + spacing;
        let size: usize = letters.len();
        proof {
            vstd::arithmetic::mul::lemma_mul_inequality(1, pitch as int, size as int);
        }
        let mut tiles: Vec<Tile> = Vec::new();
        let mut i: usize = 0;
        while i < size
            invariant
                i <= size,
                size as int <= COORD_LIMIT,
                size == letters@.len(),
                tiles@.len() == i,
                1 <= tile_width,
                0 <= spacing,
                pitch == tile_width + spacing,
                -COORD_LIMIT <= origin_x <= COORD_LIMIT,
                -COORD_LIMIT <= origin_y <= COORD_LIMIT,
                (size as int) * pitch <= COORD_LIMIT,
                forall|k: int|
                    0 <= k < i ==> #[trigger] tiles@[k] == (Tile {
                        x: (origin_x + k * pitch) as i64,
                        y: origin_y,
                        letter: letters@[k],
                        dragging: false,
                        grab_offset: None,
                        anim: None,
                    }),
            decreases size - i,
        {
            proof {
                vstd::arithmetic::mul::lemma_mul_inequality(i as int, size as int, pitch as int);
                vstd::arithmetic::mul::lemma_mul_nonnegative(i as int, pitch as int);
                assert((i as int) * (pitch as int) <= COORD_LIMIT);
            }
            let tile_x: i64 = origin_x + (i as i64) * pitch;
            tiles.push(Tile::new(tile_x, origin_y, letters[i]));
            i = i + 1;
        }
        let rack = Rack {
            origin_x,
            origin_y,
            tiles,
            size,
            tile_width,
            tile_height,
            spacing,
            animation_steps,
        };
        proof {
            assert forall|k: int| 0 <= k < rack.tiles@.len() implies tile_ok(
                #[trigger] rack.tiles@[k],
                animation_steps,
            ) by {
                vstd::arithmetic::mul::lemma_mul_inequality(k, size as int, pitch as int);
                vstd::arithmetic::mul::lemma_mul_nonnegative(k, pitch as int);
            }
        }
        Ok(rack)
    }

    /// The configuration fields (everything but the tiles) of two racks
    /// agree; every rack operation keeps them.
    pub open spec fn same_config(self, o: Rack) -> bool {
        &&& self.origin_x == o.origin_x
        &&& self.origin_y == o.origin_y
        &&& self.size == o.size
        &&& self.tile_width == o.tile_width
        &&& self.tile_height == o.tile_height
        &&& self.spacing == o.spacing
        &&& self.animation_steps == o.animation_steps
    }

    /// Index of the first dragging tile, if any; under `wf` it is the only
    /// one.
    pub open spec fn dragging_index(self) -> Option<int> {
        first_dragging_at(self.tiles@, 0)
    }

    /// Maps an arbitrary x coordinate to a clamped slot index in
    /// `[0, size - 1]`.
    pub fn target_index_for_x(&self, x: i64) -> (idx: usize)
        requires
            self.wf(),
        ensures
            idx as int == self.target_index_of(x as int),
            idx < self.size,
    {
        let off: i128 = (x as i128) - (self.origin_x as i128) + ((self.tile_width / 2) as i128);
        if off < 0 {
            0
        } else {
            let q: i128 = off / ((self.tile_width + self.spacing) as i128);
            proof {
                vstd::arithmetic::div_mod::lemma_div_pos_is_pos(
                    off as int,
                    self.pitch(),
                );
                vstd::arithmetic::div_mod::lemma_div_nonincreasing(
                    off as int,
                    self.pitch(),
                );
            }
            if q > (self.size - 1) as i128 {
                self.size - 1
            } else {
                q as usize
            }
        }
    }

    /// The unique dragging tile and its current slot index, or `None`. If
    /// the single-drag invariant were ever violated, the first dragging
    /// tile in sequence order is returned as a defensive fallback.
    pub fn dragging_tile(&self) -> (r: Option<(usize, Tile)>)
        ensures
            match r {
                Some(p) => {
                    &&& self.dragging_index() == Some(p.0 as int)
                    &&& p.0 < self.tiles@.len()
                    &&& p.1 == self.tiles@[p.0 as int]
                    &&& p.1.dragging
                },
                None => {
                    &&& self.dragging_index() is None
                    &&& forall|j: int|
                        0 <= j < self.tiles@.len() ==> !(#[trigger] self.tiles@[j]).dragging
                },
            },
    {
        let n = self.tiles.len();
        let mut j: usize = 0;
        while j < n
            invariant
                j <= n,
                n == self.tiles@.len(),
                forall|m: int| 0 <= m < j ==> !(#[trigger] self.tiles@[m]).dragging,
            decreases n - j,
        {
            if self.tiles[j].dragging {
                proof {
                    lemma_first_dragging_skip(self.tiles@, j as int);
                }
                return Some((j, self.tiles[j]));
            }
            j = j + 1;
        }
        proof {
            lemma_first_dragging_skip(self.tiles@, n as int);
        }
        None
    }

    /// Marks the tile at `index` as dragging and records the offset between
    /// the pointer and the tile origin. Rejected when the index is out of
    /// range or another drag is already in progress; the rack is unchanged
    /// in either case.
    pub fn begin_drag(&mut self, index: usize, pointer_x: i64, pointer_y: i64) -> (r: Result<
        (),
        RackError,
    >)
        requires
            old(self).wf(),
            index < old(self).tiles@.len() ==> {
                &&& i64::MIN <= pointer_x - old(self).tiles@[index as int].x <= i64::MAX
                &&& i64::MIN <= pointer_y - old(self).tiles@[index as int].y <= i64::MAX
            },
        ensures
            final(self).wf(),
            final(self).same_config(*old(self)),
            match r {
                Ok(()) => {
                    &&& index < old(self).size
                    &&& old(self).dragging_index() is None
                    &&& final(self).tiles@ == old(self).tiles@.update(
                        index as int,
                        Tile {
                            dragging: true,
                            grab_offset: Some(
                                (
                                    (pointer_x - old(self).tiles@[index as int].x) as i64,
                                    (pointer_y - old(self).tiles@[index as int].y) as i64,
                                ),
                            ),
                            ..old(self).tiles@[index as int]
                        },
                    )
                    &&& final(self).dragging_index() == Some(index as int)
                },
                Err(RackError::IndexOutOfRange) => {
                    &&& index >= old(self).size
                    &&& final(self).tiles@ == old(self).tiles@
                },
                Err(RackError::DragInProgress) => {
                    &&& index < old(self).size
                    &&& old(self).dragging_index() is Some
                    &&& final(self).tiles@ == old(self).tiles@
                },
                Err(_) => false,
            },
    {
        if index >= self.tiles.len() {
            return Err(RackError::IndexOutOfRange);
        }
        if self.dragging_tile().is_some() {
            return Err(RackError::DragInProgress);
        }
        let mut t = self.tiles[index];
        t.dragging = true;
        t.grab_offset = Some((pointer_x - t.x, pointer_y - t.y));
        self.tiles[index] = t;
        proof {
            lemma_first_dragging_skip(self.tiles@, index as int);
        }
        Ok(())
    }

    /// Moves the dragging tile so that it keeps its grab offset from the
    /// pointer. Does nothing when no tile is dragging.
    pub fn drag_to(&mut self, pointer_x: i64, pointer_y: i64)
        requires
            old(self).wf(),
            old(self).dragging_index() matches Some(k) ==> {
                let off = old(self).tiles@[k].grab_offset->Some_0;
                &&& -3 * COORD_LIMIT <= pointer_x - off.0 <= 3 * COORD_LIMIT
                &&& -3 * COORD_LIMIT <= pointer_y - off.1 <= 3 * COORD_LIMIT
            },
        ensures
            final(self).wf(),
            final(self).same_config(*old(self)),
            match old(self).dragging_index() {
                None => final(self).tiles@ == old(self).tiles@,
                Some(k) => {
                    let off = old(self).tiles@[k].grab_offset->Some_0;
                    final(self).tiles@ == old(self).tiles@.update(
                        k,
                        Tile {
                            x: (pointer_x - off.0) as i64,
                            y: (pointer_y - off.1) as i64,
                            ..old(self).tiles@[k]
                        },
                    )
                },
            },
    {
        let dragging = self.dragging_tile();
        match dragging {
            None => (),
            Some((k, tile)) => {
                let off = tile.grab_offset.unwrap();
                let mut t = self.tiles[k];
                t.x = pointer_x - off.0;
                t.y = pointer_y - off.1;
                self.tiles[k] = t;
                proof {
                    let steps = self.animation_steps;
                    assert forall|i: int| 0 <= i < self.tiles@.len() implies tile_ok(
                        #[trigger] self.tiles@[i],
                        steps,
                    ) by {
                        assert(tile_ok(old(self).tiles@[i], steps));
                    }
                }
            },
        }
    }

    /// Ends the drag: clears the drag state of the dragging tile, computes
    /// the slot its x coordinate maps to, and moves it there in the
    /// sequence (a single-element move that shifts the tiles in between by
    /// one slot). Returns the pair of old and new slot index, or `None`
    /// when no tile was dragging.
    pub fn end_drag(&mut self) -> (r: Option<(usize, usize)>)
        requires
            old(self).wf(),
        ensures
            final(self).wf(),
            final(self).same_config(*old(self)),
            match old(self).dragging_index() {
                None => r is None && final(self).tiles@ == old(self).tiles@,
                Some(k) => {
                    let t = old(self).tiles@[k];
                    let ni = old(self).target_index_of(t.x as int);
                    let dropped = Tile { dragging: false, grab_offset: None, ..t };
                    &&& r == Some((k as usize, ni as usize))
                    &&& final(self).tiles@ == old(self).tiles@.remove(k).insert(ni, dropped)
                    &&& final(self).dragging_index() is None
                },
            },
    {
        let dragging = self.dragging_tile();
        match dragging {
            None => None,
            Some((k, tile)) => {
                let mut t = self.tiles[k];
                t.dragging = false;
                t.grab_offset = None;
                let ni = self.target_index_for_x(t.x);
                self.tiles.remove(k);
                self.tiles.insert(ni, t);
                proof {
                    let old_tiles = old(self).tiles@;
                    let removed = old_tiles.remove(k as int);
                    old_tiles.remove_ensures(k as int);
                    removed.insert_ensures(ni as int, t);
                    let steps = self.animation_steps;
                    assert forall|i: int| 0 <= i < self.tiles@.len() implies tile_ok(
                        #[trigger] self.tiles@[i],
                        steps,
                    ) && !self.tiles@[i].dragging by {
                        if i < ni {
                            assert(self.tiles@[i] == removed[i]);
                        } else if i == ni {
                            assert(self.tiles@[i] == t);
                        } else {
                            assert(self.tiles@[i] == removed[i - 1]);
                        }
                        assert forall|m: int| 0 <= m < removed.len() implies tile_ok(
                            #[trigger] removed[m],
                            steps,
                        ) && (removed[m].dragging ==> false) by {
                            if m < k {
                                assert(removed[m] == old_tiles[m]);
                                assert(!old_tiles[m].dragging) by {
                                    lemma_first_dragging_at(old_tiles, 0);
                                }
                            } else {
                                assert(removed[m] == old_tiles[m + 1]);
                                if old_tiles[m + 1].dragging {
                                    lemma_first_dragging_at(old_tiles, 0);
                                    assert(false);
                                }
                            }
                        }
                        assert(tile_ok(t, steps));
                    }
                    lemma_first_dragging_at(self.tiles@, 0);
                }
                Some((k, ni))
            },
        }
    }
}

/// What one tick does to a single non-dragging tile whose current target is
/// `(tx, ty)`, with `steps` interpolation steps per run:
/// - with animation disabled (`steps == 0`), the tile snaps to the target;
/// - a tile already at its target, or at the end of its run, snaps to the
///   target and its run is cleared;
/// - otherwise the tile advances by its run's step vector, computing the
///   vector first — as the target delta divided by `steps`, rounding toward
///   zero — if the run has none yet. The vector is not recomputed while the
///   run is active, so a target that moves mid-run does not bend the
///   trajectory until the run ends.
///
/// A dragging tile is left alone.
pub open spec fn tick_tile_spec(t: Tile, tx: int, ty: int, steps: u32) -> Tile {
    if t.dragging {
        t
    } else if steps == 0 {
        Tile { x: tx as i64, y: ty as i64, ..t }
    } else if (t.x == tx && t.y == ty) || anim_taken(t) >= steps {
        Tile { x: tx as i64, y: ty as i64, anim: None, ..t }
    } else {
        let sx = match t.anim {
            Some(a) => a.step_x as int,
            None => div_trunc(tx - t.x, steps as int),
        };
        let sy = match t.anim {
            Some(a) => a.step_y as int,
            None => div_trunc(ty - t.y, steps as int),
        };
        Tile {
            x: (t.x + sx) as i64,
            y: (t.y + sy) as i64,
            anim: Some(
                Anim {
                    steps_taken: (anim_taken(t) + 1) as u32,
                    step_x: sx as i64,
                    step_y: sy as i64,
                },
            ),
            ..t
        }
    }
}

impl Rack {
    /// This frame's target x for the tile in slot `i`: its resting x,
    /// displaced by one slot while a drag is in progress and `i` lies
    /// between the drag's starting slot and the slot the dragged tile would
    /// land in if dropped now.
    pub open spec fn tick_target_x(self, i: int) -> int {
        match self.dragging_index() {
            None => self.slot_x(i),
            Some(k) => {
                let ni = self.target_index_of(self.tiles@[k].x as int);
                if ni <= i <= k {
                    self.slot_x(i) + self.pitch()
                } else if k <= i <= ni {
                    self.slot_x(i) - self.pitch()
                } else {
                    self.slot_x(i)
                }
            },
        }
    }

    /// The whole tile sequence after one tick.
    pub open spec fn tick_result(self) -> Seq<Tile> {
        Seq::new(
            self.tiles@.len(),
            |i: int|
                tick_tile_spec(
                    self.tiles@[i],
                    self.tick_target_x(i),
                    self.origin_y as int,
                    self.animation_steps,
                ),
        )
    }

    /// Advances the animation of every non-dragging tile by exactly one
    /// frame, as [`tick_tile_spec`] describes, against the targets of the
    /// current frame.
    pub fn tick(&mut self)
        requires
            old(self).wf(),
        ensures
            final(self).wf(),
            final(self).same_config(*old(self)),
            final(self).tiles@ == old(self).tick_result(),
    {
        let drag_info: Option<(usize, usize)> = match self.dragging_tile() {
            None => None,
            Some((k, t)) => Some((k, self.target_index_for_x(t.x))),
        };
        let pitch: i64 = self.tile_width + self.spacing;
        let steps: u32 = self.animation_steps;
        let n = self.tiles.len();
        proof {
            vstd::arithmetic::mul::lemma_mul_inequality(1, pitch as int, n as int);
            assert((pitch as int) * (n as int) == (n as int) * (pitch as int))
                by (nonlinear_arith);
        }
        let mut i: usize = 0;
        while i < n
            invariant
                i <= n,
                n == self.tiles@.len(),
                n == old(self).tiles@.len(),
                n as int <= COORD_LIMIT,
                pitch == old(self).pitch(),
                steps == old(self).animation_steps,
                old(self).wf(),
                self.same_config(*old(self)),
                drag_info matches Some(p) ==> old(self).dragging_index() == Some(p.0 as int)
                    && p.1 as int == old(self).target_index_of(
                    old(self).tiles@[p.0 as int].x as int,
                ),
                drag_info is None ==> old(self).dragging_index() is None,
                forall|m: int| 0 <= m < i ==> self.tiles@[m] == old(self).tick_result()[m],
                forall|m: int| i <= m < n ==> self.tiles@[m] == old(self).tiles@[m],
                forall|m: int| 0 <= m < i ==> tile_ok(#[trigger] self.tiles@[m], steps),
            decreases n - i,
        {
            let ghost pre = *old(self);
            let mut t = self.tiles[i];
            if !t.dragging {
                proof {
                    vstd::arithmetic::mul::lemma_mul_inequality(i as int, n as int, pitch as int);
                    vstd::arithmetic::mul::lemma_mul_nonnegative(i as int, pitch as int);
                    assert((i as int) * (pitch as int) <= COORD_LIMIT);
                }
                let mut tx: i64 = self.origin_x + (i as i64) * pitch;
                match drag_info {
                    None => (),
                    Some((k, ni)) => {
                        if ni <= i && i <= k {
                            tx = tx + pitch;
                        } else if k <= i && i <= ni {
                            tx = tx - pitch;
                        }
                    },
                }
                let ty: i64 = self.origin_y;
                proof {
                    assert(tx as int == pre.tick_target_x(i as int));
                    assert(-3 * COORD_LIMIT <= tx <= 3 * COORD_LIMIT);
                    assert(tile_ok(t, steps));
                }
                if steps == 0 {
                    t.x = tx;
                    t.y = ty;
                } else if (t.x == tx && t.y == ty) || (match t.anim {
                    Some(a) => a.steps_taken >= steps,
                    None => false,
                }) {
                    t.x = tx;
                    t.y = ty;
                    t.anim = None;
                } else {
                    let (sx, sy, taken): (i64, i64, u32) = match t.anim {
                        Some(a) => (a.step_x, a.step_y, a.steps_taken),
                        None => (step_of(tx - t.x, steps), step_of(ty - t.y, steps), 0),
                    };
                    proof {
                        let r = steps - anim_taken(t);
                        if t.anim is Some {
                            assert(r >= 1);
                            assert(vstd::math::abs(sx as int) <= r * vstd::math::abs(sx as int))
                                by (nonlinear_arith)
                                requires r >= 1;
                            assert(vstd::math::abs(sy as int) <= r * vstd::math::abs(sy as int))
                                by (nonlinear_arith)
                                requires r >= 1;
                            assert((r - 1) * vstd::math::abs(sx as int) + vstd::math::abs(
                                sx as int,
                            ) == r * vstd::math::abs(sx as int)) by (nonlinear_arith);
                            assert((r - 1) * vstd::math::abs(sy as int) + vstd::math::abs(
                                sy as int,
                            ) == r * vstd::math::abs(sy as int)) by (nonlinear_arith);
                        } else {
                            assert(vstd::math::abs(sx as int) * steps == steps * vstd::math::abs(
                                sx as int,
                            )) by (nonlinear_arith);
                            assert(vstd::math::abs(sy as int) * steps == steps * vstd::math::abs(
                                sy as int,
                            )) by (nonlinear_arith);
                            assert((steps - 1) * vstd::math::abs(sx as int) + vstd::math::abs(
                                sx as int,
                            ) == steps * vstd::math::abs(sx as int)) by (nonlinear_arith);
                            assert((steps - 1) * vstd::math::abs(sy as int) + vstd::math::abs(
                                sy as int,
                            ) == steps * vstd::math::abs(sy as int)) by (nonlinear_arith);
                        }
                    }
                    t.x = t.x + sx;
                    t.y = t.y + sy;
                    t.anim = Some(Anim { steps_taken: taken + 1, step_x: sx, step_y: sy });
                }
                proof {
                    assert(tile_ok(t, steps));
                }
                self.tiles[i] = t;
                proof {
                    assert(self.tiles@[i as int] == pre.tick_result()[i as int]);
                }
            } else {
                proof {
                    assert(pre.tick_result()[i as int] == pre.tiles@[i as int]);
                    assert(tile_ok(t, steps));
                }
            }
            i = i + 1;
        }
        proof {
            assert(self.tiles@ =~= old(self).tick_result());
            let steps = self.animation_steps;
            assert forall|a: int, b: int|
                0 <= a < b < self.tiles@.len() implies !(self.tiles@[a].dragging
                && self.tiles@[b].dragging) by {
                assert(self.tiles@[a].dragging == old(self).tiles@[a].dragging);
                assert(self.tiles@[b].dragging == old(self).tiles@[b].dragging);
            }
        }
    }
}

impl Rack {
    /// Number of slots.
    pub fn len(&self) -> (n: usize)
        ensures
            n == self.tiles@.len(),
    {
        self.tiles.len()
    }

    /// A copy of the tile at slot `i`.
    pub fn tile(&self, i: usize) -> (t: Tile)
        requires
            i < self.tiles@.len(),
        ensures
            t == self.tiles@[i as int],
    {
        self.tiles[i]
    }

    /// The letter of the tile at slot `i`.
    pub fn letter_at(&self, i: usize) -> (c: char)
        requires
            i < self.tiles@.len(),
        ensures
            c == self.tiles@[i as int].letter,
    {
        self.tiles[i].letter
    }

    /// The rack's overall bounding box `(x, y, width, height)`, spanning
    /// one pitch per slot.
    pub fn bounds(&self) -> (b: (i64, i64, i64, i64))
        requires
            self.wf(),
        ensures
            b.0 == self.origin_x,
            b.1 == self.origin_y,
            b.2 as int == self.pitch() * self.size as int,
            b.3 == self.tile_height,
    {
        proof {
            vstd::arithmetic::mul::lemma_mul_inequality(1, self.pitch(), self.size as int);
            vstd::arithmetic::mul::lemma_mul_nonnegative(self.size as int, self.pitch());
            assert(self.pitch() * (self.size as int) == (self.size as int) * self.pitch())
                by (nonlinear_arith);
        }
        let w: i64 = (self.tile_width + self.spacing) * (self.size as i64);
        (self.origin_x, self.origin_y, w, self.tile_height)
    }

    /// The bounding box `(x, y, width, height)` of the tile at slot `i`.
    pub fn tile_bounds(&self, i: usize) -> (b: (i64, i64, i64, i64))
        requires
            self.wf(),
            i < self.tiles@.len(),
        ensures
            b == (
                self.tiles@[i as int].x,
                self.tiles@[i as int].y,
                self.tile_width,
                self.tile_height,
            ),
    {
        let t = self.tiles[i];
        (t.x, t.y, self.tile_width, self.tile_height)
    }
}

/// Division of the target delta by the step count, rounding toward zero.
/// The step is never larger than the delta, and taking it `steps` times
/// never moves past the delta.
fn step_of(delta: i64, steps: u32) -> (r: i64)
    requires
        1 <= steps,
        -6 * COORD_LIMIT <= delta <= 6 * COORD_LIMIT,
    ensures
        r as int == div_trunc(delta as int, steps as int),
        vstd::math::abs(r as int) * (steps as int) <= vstd::math::abs(delta as int),
        vstd::math::abs(r as int) <= vstd::math::abs(delta as int),
{
    if delta >= 0 {
        let q: u64 = (delta as u64) / (steps as u64);
        proof {
            lemma_div_trunc_facts(delta as int, steps as int);
        }
        q as i64
    } else {
        let neg: i64 = -delta;
        let q: u64 = (neg as u64) / (steps as u64);
        proof {
            lemma_div_trunc_facts(neg as int, steps as int);
        }
        -(q as i64)
    }
}

/// For a non-negative dividend `d` and positive divisor `n`: the quotient
/// is non-negative, at most `d`, and `n` quotients never exceed `d`.
proof fn lemma_div_trunc_facts(d: int, n: int)
    requires
        0 <= d,
        1 <= n,
    ensures
        0 <= d / n <= d,
        (d / n) * n <= d,
{
    vstd::arithmetic::div_mod::lemma_div_pos_is_pos(d, n);
    vstd::arithmetic::div_mod::lemma_div_nonincreasing(d, n);
    vstd::arithmetic::div_mod::lemma_fundamental_div_mod(d, n);
    vstd::arithmetic::div_mod::lemma_mod_bound(d, n);
    assert(n * (d / n) == (d / n) * n) by (nonlinear_arith);
}

/// A prefix without a dragging tile does not change where the first
/// dragging tile is found.
pub proof fn lemma_first_dragging_skip(tiles: Seq<Tile>, k: int)
    requires
        0 <= k <= tiles.len(),
        forall|j: int| 0 <= j < k ==> !(#[trigger] tiles[j]).dragging,
    ensures
        first_dragging_at(tiles, 0) == first_dragging_at(tiles, k),
    decreases k,
{
    if k > 0 {
        lemma_first_dragging_skip(tiles, k - 1);
    }
}

} // verus!
