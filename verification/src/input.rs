//! The pointer interface: translates pointer events into rack operations.
//! The hosting event loop calls `on_pointer_down`, `on_pointer_move` and
//! `on_pointer_up` with absolute coordinates in the rack's coordinate
//! space. Hit-testing uses each tile's actual rectangular bounds, so a
//! press in the spacing between two tiles hits nothing.

use vstd::prelude::*;
use crate::rack::{Rack, RackError};
use crate::tile::Tile;

verus! {

impl Rack {
    /// The point lies within the rectangular bounds of tile `t` (edges
    /// included).
    pub open spec fn tile_contains(self, t: Tile, px: int, py: int) -> bool {
        &&& t.x <= px <= t.x + self.tile_width
        &&& t.y <= py <= t.y + self.tile_height
    }

    /// Index of the first tile at or after `k` whose bounds contain the
    /// point.
    pub open spec fn hit_index_at(self, px: int, py: int, k: int) -> Option<int>
        recommends
            0 <= k <= self.tiles@.len(),
        decreases self.tiles@.len() - k when 0 <= k <= self.tiles@.len()
    {
        if k >= self.tiles@.len() {
            None
        } else if self.tile_contains(self.tiles@[k], px, py) {
            Some(k)
        } else {
            self.hit_index_at(px, py, k + 1)
        }
    }

    /// Index of the first tile whose bounds contain the point, if any.
    pub open spec fn hit_index(self, px: int, py: int) -> Option<int> {
        self.hit_index_at(px, py, 0)
    }

    /// The slot of the first tile (in sequence order) whose rectangle
    /// contains the point, or `None` when the point lies on no tile.
    pub fn tile_at_point(&self, px: i64, py: i64) -> (r: Option<usize>)
        requires
            self.wf(),
        ensures
            match r {
                Some(k) => {
                    &&& self.hit_index(px as int, py as int) == Some(k as int)
                    &&& k < self.tiles@.len()
                    &&& self.tile_contains(self.tiles@[k as int], px as int, py as int)
                },
                None => {
                    &&& self.hit_index(px as int, py as int) is None
                    &&& forall|j: int|
                        0 <= j < self.tiles@.len() ==> !self.tile_contains(
                            #[trigger] self.tiles@[j],
                            px as int,
                            py as int,
                        )
                },
            },
    {
        let n = self.tiles.len();
        let mut j: usize = 0;
        while j < n
            invariant
                j <= n,
                n == self.tiles@.len(),
                self.wf(),
                forall|m: int|
                    0 <= m < j ==> !self.tile_contains(
                        #[trigger] self.tiles@[m],
                        px as int,
                        py as int,
                    ),
            decreases n - j,
        {
            let t = self.tiles[j];
            proof {
                assert(crate::rack::tile_ok(self.tiles@[j as int], self.animation_steps));
            }
            if t.x <= px && px <= t.x + self.tile_width && t.y <= py && py
                <= t.y + self.tile_height {
                proof {
                    self.lemma_hit_index_skip(px as int, py as int, j as int);
                }
                return Some(j);
            }
            j = j + 1;
        }
        proof {
            self.lemma_hit_index_skip(px as int, py as int, n as int);
        }
        None
    }

    /// A prefix of tiles that miss the point does not change which tile is
    /// hit first.
    proof fn lemma_hit_index_skip(self, px: int, py: int, k: int)
        requires
            0 <= k <= self.tiles@.len(),
            forall|j: int|
                0 <= j < k ==> !self.tile_contains(#[trigger] self.tiles@[j], px, py),
        ensures
            self.hit_index(px, py) == self.hit_index_at(px, py, k),
        decreases k,
    {
        if k > 0 {
            self.lemma_hit_index_skip(px, py, k - 1);
        }
    }

    /// Pointer pressed: if the point lies on a tile and no drag is in
    /// progress, that tile starts dragging and its slot is returned.
    pub fn on_pointer_down(&mut self, px: i64, py: i64) -> (r: Option<usize>)
        requires
            old(self).wf(),
        ensures
            final(self).wf(),
            final(self).same_config(*old(self)),
            match (old(self).hit_index(px as int, py as int), old(self).dragging_index()) {
                (Some(k), None) => {
                    &&& r == Some(k as usize)
                    &&& final(self).tiles@ == old(self).tiles@.update(
                        k,
                        Tile {
                            dragging: true,
                            grab_offset: Some(
                                (
                                    (px - old(self).tiles@[k].x) as i64,
                                    (py - old(self).tiles@[k].y) as i64,
                                ),
                            ),
                            ..old(self).tiles@[k]
                        },
                    )
                    &&& final(self).dragging_index() == Some(k)
                },
                _ => r is None && final(self).tiles@ == old(self).tiles@,
            },
    {
        match self.tile_at_point(px, py) {
            None => None,
            Some(k) => {
                match self.begin_drag(k, px, py) {
                    Ok(()) => Some(k),
                    Err(_) => None,
                }
            },
        }
    }

    /// Pointer moved: keeps the dragging tile at its grab offset from the
    /// pointer. Does nothing when no drag is in progress.
    pub fn on_pointer_move(&mut self, px: i64, py: i64)
        requires
            old(self).wf(),
            old(self).dragging_index() matches Some(k) ==> {
                let off = old(self).tiles@[k].grab_offset->Some_0;
                &&& -3 * crate::rack::COORD_LIMIT <= px - off.0 <= 3 * crate::rack::COORD_LIMIT
                &&& -3 * crate::rack::COORD_LIMIT <= py - off.1 <= 3 * crate::rack::COORD_LIMIT
            },
        ensures
            final(self).wf(),
            final(self).same_config(*old(self)),
            match old(self).dragging_index() {
                None => final(self).tiles@ == old(self).tiles@,
                Some(k) => {
                    let off = old(self).tiles@[k].grab_offset->Some_0;
                    final(self).tiles@ == old(self).tiles@.update(
                        k,
                        Tile {
                            x: (px - off.0) as i64,
                            y: (py - off.1) as i64,
                            ..old(self).tiles@[k]
                        },
                    )
                },
            },
    {
        self.drag_to(px, py);
    }

    /// Pointer released: any release is an intentional drop at the
    /// pointer's current position, so the drag (if any) ends.
    pub fn on_pointer_up(&mut self) -> (r: Option<(usize, usize)>)
        requires
            old(self).wf(),
        ensures
            final(self).wf(),
            final(self).same_config(*old(self)),
            match old(self).dragging_index() {
                None => r is None && final(self).tiles@ == old(self).tiles@,
                Some(k) => {
                    let t = old(self).tiles@[k];
                    let ni = old(self).target_index_of(t.x as int);
                    let dropped = Tile { dragging: false, grab_offset: None, ..t };
                    &&& r == Some((k as usize, ni as usize))
                    &&& final(self).tiles@ == old(self).tiles@.remove(k).insert(ni, dropped)
                },
            },
    {
        self.end_drag()
    }
}

} // verus!
