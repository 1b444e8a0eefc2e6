//! The general guarantees of the engine, stated and proved over the spec
//! functions that the rack operations' contracts use. Every rack operation
//! ensures `wf` and `same_config`, so each of these laws carries over any
//! sequence of calls.

use vstd::prelude::*;
use crate::rack::{Rack, lemma_first_dragging_at};
use crate::tile::Tile;

verus! {

/// The tile count of a well-formed rack equals its `size`. Every rack
/// operation preserves `wf` and keeps `size`, so the count is fixed across
/// any sequence of `begin_drag`, `drag_to`, `end_drag` and `tick` calls.
pub proof fn lemma_fixed_size(r: Rack)
    requires
        r.wf(),
    ensures
        r.tiles@.len() == r.size,
{
}

/// At most one tile of a well-formed rack is dragging: any two dragging
/// tiles are the same tile. Every rack operation preserves `wf`, so this
/// holds at every point of any call sequence that respects the
/// preconditions.
pub proof fn lemma_at_most_one_dragging(r: Rack, i: int, j: int)
    requires
        r.wf(),
        0 <= i < r.tiles@.len(),
        0 <= j < r.tiles@.len(),
        r.tiles@[i].dragging,
        r.tiles@[j].dragging,
    ensures
        i == j,
{
}

/// `target_index_for_x` is monotonic non-decreasing in `x`, and its result
/// always lies in `[0, size - 1]`.
pub proof fn lemma_target_index_monotonic(r: Rack, x1: int, x2: int)
    requires
        r.wf(),
        x1 <= x2,
    ensures
        r.target_index_of(x1) <= r.target_index_of(x2),
        0 <= r.target_index_of(x1) < r.size,
        0 <= r.target_index_of(x2) < r.size,
{
    lemma_target_index_in_range(r, x1);
    lemma_target_index_in_range(r, x2);
    let off1 = x1 - r.origin_x + r.tile_width / 2;
    let off2 = x2 - r.origin_x + r.tile_width / 2;
    if off1 >= 0 {
        vstd::arithmetic::div_mod::lemma_div_is_ordered(off1, off2, r.pitch());
    }
}

/// The slot index computed for any x coordinate lies in `[0, size - 1]`.
pub proof fn lemma_target_index_in_range(r: Rack, x: int)
    requires
        r.wf(),
    ensures
        0 <= r.target_index_of(x) < r.size,
{
    let off = x - r.origin_x + r.tile_width / 2;
    if off >= 0 {
        vstd::arithmetic::div_mod::lemma_div_pos_is_pos(off, r.pitch());
    }
}

/// A tile resting in its slot maps back to that slot: the centering offset
/// `tile_width / 2` is too small to push the division into the next slot.
pub proof fn lemma_slot_round_trip(r: Rack, i: int)
    requires
        r.wf(),
        0 <= i < r.size,
    ensures
        r.target_index_of(r.slot_x(i)) == i,
{
    let p = r.pitch();
    let b = r.tile_width / 2;
    vstd::arithmetic::div_mod::lemma_div_pos_is_pos(r.tile_width as int, 2);
    vstd::arithmetic::div_mod::lemma_div_decreases(r.tile_width as int, 2);
    assert(0 <= b < p);
    let off = r.slot_x(i) - r.origin_x + b;
    assert(off == i * p + b);
    vstd::arithmetic::mul::lemma_mul_nonnegative(i, p);
    vstd::arithmetic::div_mod::lemma_div_multiples_vanish_fancy(i, b, p);
    assert(p * i == i * p) by (nonlinear_arith);
    assert(off / p == i);
}

/// Round trip: picking a tile up from its resting slot and dropping it
/// without an intervening move puts it back into the same slot. `r1` is
/// the rack right after `begin_drag(i, ...)` succeeded on `r`; `end_drag`
/// on `r1` then reports `new_index == i`.
pub proof fn lemma_drop_in_place(r: Rack, r1: Rack, i: int, off: (i64, i64))
    requires
        r.wf(),
        r.dragging_index() is None,
        0 <= i < r.size,
        r.tiles@[i].x == r.slot_x(i),
        r1.same_config(r),
        r1.tiles@ == r.tiles@.update(
            i,
            Tile { dragging: true, grab_offset: Some(off), ..r.tiles@[i] },
        ),
    ensures
        r1.dragging_index() == Some(i),
        r1.target_index_of(r1.tiles@[i].x as int) == i,
{
    lemma_first_dragging_at(r.tiles@, 0);
    assert(forall|j: int| 0 <= j < i ==> !(#[trigger] r1.tiles@[j]).dragging);
    crate::rack::lemma_first_dragging_skip(r1.tiles@, i);
    lemma_slot_round_trip(r, i);
    assert(r1.target_index_of(r.slot_x(i)) == r.target_index_of(r.slot_x(i)));
}

/// Idempotence of `tick` at rest: when no tile is dragging, no animation
/// run is in progress, and every tile sits exactly at its resting slot, a
/// tick changes nothing.
pub proof fn lemma_tick_at_rest(r: Rack)
    requires
        r.wf(),
        r.dragging_index() is None,
        forall|i: int|
            0 <= i < r.tiles@.len() ==> (#[trigger] r.tiles@[i]).anim is None,
        forall|i: int|
            0 <= i < r.tiles@.len() ==> (#[trigger] r.tiles@[i]).x == r.slot_x(i),
        forall|i: int|
            0 <= i < r.tiles@.len() ==> (#[trigger] r.tiles@[i]).y == r.origin_y,
    ensures
        r.tick_result() == r.tiles@,
{
    lemma_first_dragging_at(r.tiles@, 0);
    assert forall|i: int| 0 <= i < r.tiles@.len() implies r.tick_result()[i] == r.tiles@[i] by {
        let t = r.tiles@[i];
        assert(r.tick_target_x(i) == r.slot_x(i));
        assert(crate::rack::tick_tile_spec(
            t,
            r.slot_x(i),
            r.origin_y as int,
            r.animation_steps,
        ) == t);
    }
    assert(r.tick_result() =~= r.tiles@);
}

} // verus!
