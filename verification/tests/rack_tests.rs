use tile_rack::{Rack, RackError};

fn letters(s: &str) -> Vec<char> {
    s.chars().collect()
}

fn standard_rack() -> Rack {
    // "AEINRST", tile_width 50, spacing 10, origin (100, 20), no animation.
    Rack::new(100, 20, letters("AEINRST"), 50, 50, 10, 0).unwrap()
}

fn rack_letters(rack: &Rack) -> String {
    let mut out = String::new();
    for i in 0..rack.len() {
        out.push(rack.letter_at(i));
    }
    out
}

#[test]
fn construction_places_tiles_on_slots() {
    let rack = standard_rack();
    assert_eq!(rack.len(), 7);
    assert_eq!(rack_letters(&rack), "AEINRST");
    for i in 0..7 {
        let t = rack.tile(i);
        assert_eq!(t.x, 100 + (i as i64) * 60);
        assert_eq!(t.y, 20);
        assert!(!t.dragging);
        assert!(t.grab_offset.is_none());
        assert!(t.anim.is_none());
    }
}

#[test]
fn construction_rejects_empty_letters() {
    let r = Rack::new(0, 0, Vec::new(), 50, 50, 10, 0);
    assert_eq!(r.err().unwrap(), RackError::EmptyLetters);
}

#[test]
fn construction_rejects_degenerate_geometry() {
    let r = Rack::new(0, 0, letters("AB"), 0, 50, 10, 0);
    assert_eq!(r.err().unwrap(), RackError::InvalidGeometry);
    let r = Rack::new(0, 0, letters("AB"), 50, 0, 10, 0);
    assert_eq!(r.err().unwrap(), RackError::InvalidGeometry);
    let r = Rack::new(0, 0, letters("AB"), 50, 50, -1, 0);
    assert_eq!(r.err().unwrap(), RackError::InvalidGeometry);
}

#[test]
fn target_index_clamps_and_is_monotonic() {
    let rack = standard_rack();
    // Far left and far right clamp to the first and last slot.
    assert_eq!(rack.target_index_for_x(-1_000_000), 0);
    assert_eq!(rack.target_index_for_x(1_000_000), 6);
    // Slot 3 rests at x = 280; points near its centre map to 3.
    assert_eq!(rack.target_index_for_x(280), 3);
    assert_eq!(rack.target_index_for_x(290), 3);
    assert_eq!(rack.target_index_for_x(255), 3);
    assert_eq!(rack.target_index_for_x(254), 2);
    // Monotonic non-decreasing over a sweep, always within range.
    let mut prev = 0;
    for x in (-200..800).step_by(7) {
        let idx = rack.target_index_for_x(x);
        assert!(idx <= 6);
        assert!(idx >= prev);
        prev = idx;
    }
}

#[test]
fn tile_count_fixed_over_drag_sequence() {
    let mut rack = standard_rack();
    assert_eq!(rack.len(), 7);
    rack.begin_drag(2, 225, 30).unwrap();
    assert_eq!(rack.len(), 7);
    rack.drag_to(500, 40);
    assert_eq!(rack.len(), 7);
    rack.tick();
    assert_eq!(rack.len(), 7);
    rack.end_drag().unwrap();
    assert_eq!(rack.len(), 7);
}

#[test]
fn at_most_one_tile_dragging() {
    let mut rack = standard_rack();
    assert!(rack.dragging_tile().is_none());
    rack.begin_drag(1, 170, 30).unwrap();
    let (idx, t) = rack.dragging_tile().unwrap();
    assert_eq!(idx, 1);
    assert!(t.dragging);
    // A second begin_drag is rejected and changes nothing.
    assert_eq!(rack.begin_drag(4, 340, 30).err().unwrap(), RackError::DragInProgress);
    let count = (0..rack.len()).filter(|&i| rack.tile(i).dragging).count();
    assert_eq!(count, 1);
    assert_eq!(rack.dragging_tile().unwrap().0, 1);
}

#[test]
fn begin_drag_out_of_range_rejected() {
    let mut rack = standard_rack();
    assert_eq!(rack.begin_drag(7, 0, 0).err().unwrap(), RackError::IndexOutOfRange);
    assert!(rack.dragging_tile().is_none());
}

#[test]
fn drop_without_move_returns_to_same_slot() {
    let mut rack = standard_rack();
    rack.begin_drag(2, 230, 40).unwrap();
    let (old_index, new_index) = rack.end_drag().unwrap();
    assert_eq!(old_index, 2);
    assert_eq!(new_index, 2);
    assert_eq!(rack_letters(&rack), "AEINRST");
    assert!(rack.dragging_tile().is_none());
    assert!(rack.tile(2).grab_offset.is_none());
}

#[test]
fn end_drag_without_drag_is_noop() {
    let mut rack = standard_rack();
    assert!(rack.end_drag().is_none());
    assert_eq!(rack_letters(&rack), "AEINRST");
}

#[test]
fn drag_to_without_drag_is_noop() {
    let mut rack = standard_rack();
    rack.drag_to(400, 400);
    for i in 0..7 {
        assert_eq!(rack.tile(i).x, 100 + (i as i64) * 60);
    }
}

#[test]
fn drag_fourth_tile_to_front() {
    // Rack "AEINRST", tile_width 50, spacing 10: slot 3 ('N') rests at
    // origin_x + 180. Grab it, drag to origin_x + 20, drop: it lands in
    // slot 0 and the sequence becomes "NAEIRST".
    let mut rack = standard_rack();
    assert_eq!(rack.tile(3).x, 280);
    rack.begin_drag(3, 100 + 190, 20 + 10).unwrap();
    assert_eq!(rack.tile(3).grab_offset, Some((10, 10)));
    rack.drag_to(100 + 20, 20 + 10);
    assert_eq!(rack.tile(3).x, 110);
    assert_eq!(rack.tile(3).y, 20);
    let (old_index, new_index) = rack.end_drag().unwrap();
    assert_eq!(old_index, 3);
    assert_eq!(new_index, 0);
    assert_eq!(rack_letters(&rack), "NAEIRST");
}

#[test]
fn tick_is_idempotent_at_rest() {
    let mut rack = Rack::new(100, 20, letters("AEINRST"), 50, 50, 10, 100).unwrap();
    for _ in 0..5 {
        rack.tick();
        for i in 0..7 {
            let t = rack.tile(i);
            assert_eq!(t.x, 100 + (i as i64) * 60);
            assert_eq!(t.y, 20);
            assert!(t.anim.is_none());
        }
    }
}

#[test]
fn animation_reaches_target_exactly_after_all_steps() {
    // Two tiles, pitch 6000, 100 animation steps. Dragging 'A' over 'B'
    // displaces 'B' by one pitch: from x = 6000 toward x = 0, i.e. -60
    // per tick, landing exactly after 100 ticks.
    let mut rack = Rack::new(0, 0, letters("AB"), 5000, 5000, 1000, 100).unwrap();
    rack.begin_drag(0, 10, 10).unwrap();
    rack.drag_to(6010, 10);
    assert_eq!(rack.tile(0).x, 6000);
    rack.tick();
    let t = rack.tile(1);
    assert_eq!(t.x, 5940);
    let anim = t.anim.unwrap();
    assert_eq!(anim.step_x, -60);
    assert_eq!(anim.step_y, 0);
    assert_eq!(anim.steps_taken, 1);
    for _ in 0..99 {
        rack.tick();
    }
    // Exactly at the target after 100 ticks: no residual drift.
    assert_eq!(rack.tile(1).x, 0);
    assert_eq!(rack.tile(1).y, 0);
    // Further ticks leave it in place and clear the run.
    rack.tick();
    assert_eq!(rack.tile(1).x, 0);
    assert!(rack.tile(1).anim.is_none());
    // The dragged tile itself never animates.
    assert_eq!(rack.tile(0).x, 6000);
    assert!(rack.tile(0).anim.is_none());
}

#[test]
fn animation_step_smaller_than_one_unit_snaps_at_run_end() {
    // A displacement smaller than the step count gives a zero per-tick
    // step; the tile stays put for the whole run and the end-of-run snap
    // puts it exactly on target.
    let mut rack = Rack::new(0, 0, letters("AB"), 30, 30, 20, 100).unwrap();
    rack.begin_drag(0, 5, 5).unwrap();
    rack.drag_to(60, 5);
    assert_eq!(rack.tile(0).x, 55);
    // 'B' rests at 50 and is displaced to 0: delta -50 over 100 steps.
    for _ in 0..100 {
        rack.tick();
        assert_eq!(rack.tile(1).x, 50);
    }
    rack.tick();
    assert_eq!(rack.tile(1).x, 0);
    assert!(rack.tile(1).anim.is_none());
}

#[test]
fn zero_steps_snaps_in_a_single_tick() {
    let mut rack = Rack::new(0, 0, letters("AB"), 5000, 5000, 1000, 0).unwrap();
    rack.begin_drag(0, 10, 10).unwrap();
    rack.drag_to(6010, 10);
    rack.tick();
    // One tick, no intermediate frame: 'B' is already at its displaced
    // slot.
    assert_eq!(rack.tile(1).x, 0);
    assert_eq!(rack.tile(1).y, 0);
    assert!(rack.tile(1).anim.is_none());
    // Drop and tick once: everything is at rest immediately.
    rack.end_drag().unwrap();
    rack.tick();
    assert_eq!(rack_letters(&rack), "BA");
    assert_eq!(rack.tile(0).x, 0);
    assert_eq!(rack.tile(1).x, 6000);
}

#[test]
fn live_preview_shifts_only_tiles_between_old_and_new_slot() {
    // Drag 'A' (slot 0) over slot 2: tiles 1 and 2 shift left by one
    // pitch, tiles 3.. stay. No animation so the shift is immediate.
    let mut rack = Rack::new(0, 0, letters("ABCD"), 50, 50, 10, 0).unwrap();
    rack.begin_drag(0, 10, 10).unwrap();
    rack.drag_to(130, 10);
    assert_eq!(rack.tile(0).x, 120);
    rack.tick();
    assert_eq!(rack.tile(1).x, 0);
    assert_eq!(rack.tile(2).x, 60);
    assert_eq!(rack.tile(3).x, 180);
}

#[test]
fn bounds_cover_all_slots() {
    let rack = standard_rack();
    assert_eq!(rack.bounds(), (100, 20, 7 * 60, 50));
    assert_eq!(rack.tile_bounds(2), (220, 20, 50, 50));
}
