use tile_rack::Rack;

fn letters(s: &str) -> Vec<char> {
    s.chars().collect()
}

#[test]
fn hit_test_uses_actual_tile_bounds() {
    let rack = Rack::new(100, 20, letters("AEINRST"), 50, 50, 10, 0).unwrap();
    // Inside tile 0 and tile 1.
    assert_eq!(rack.tile_at_point(100, 20), Some(0));
    assert_eq!(rack.tile_at_point(150, 70), Some(0));
    assert_eq!(rack.tile_at_point(160, 45), Some(1));
    // In the spacing between tile 0 and tile 1: no hit.
    assert_eq!(rack.tile_at_point(155, 45), None);
    // Above, below, left and right of the rack: no hit.
    assert_eq!(rack.tile_at_point(120, 10), None);
    assert_eq!(rack.tile_at_point(120, 80), None);
    assert_eq!(rack.tile_at_point(90, 45), None);
    assert_eq!(rack.tile_at_point(600, 45), None);
}

#[test]
fn pointer_sequence_reorders_rack() {
    let mut rack = Rack::new(100, 20, letters("AEINRST"), 50, 50, 10, 0).unwrap();
    // Press on tile 3 ('N'), drag to the far left, release.
    assert_eq!(rack.on_pointer_down(290, 30), Some(3));
    assert!(rack.dragging_tile().is_some());
    rack.on_pointer_move(120, 30);
    assert_eq!(rack.tile(3).x, 110);
    let (old_index, new_index) = rack.on_pointer_up().unwrap();
    assert_eq!(old_index, 3);
    assert_eq!(new_index, 0);
    let s: String = (0..rack.len()).map(|i| rack.letter_at(i)).collect();
    assert_eq!(s, "NAEIRST");
}

#[test]
fn pointer_down_misses_gap_and_second_press_rejected() {
    let mut rack = Rack::new(100, 20, letters("AEINRST"), 50, 50, 10, 0).unwrap();
    assert_eq!(rack.on_pointer_down(155, 45), None);
    assert!(rack.dragging_tile().is_none());
    assert_eq!(rack.on_pointer_down(110, 45), Some(0));
    // A second press while a drag is active starts nothing.
    assert_eq!(rack.on_pointer_down(170, 45), None);
    assert_eq!(rack.dragging_tile().unwrap().0, 0);
}

#[test]
fn pointer_up_without_drag_is_noop() {
    let mut rack = Rack::new(100, 20, letters("AB"), 50, 50, 10, 0).unwrap();
    assert!(rack.on_pointer_up().is_none());
}

#[test]
fn draw_order_puts_dragging_tile_last() {
    let mut rack = Rack::new(100, 20, letters("AEINRST"), 50, 50, 10, 0).unwrap();
    // At rest the draw order is slot order.
    assert_eq!(rack.draw_order(), vec![0, 1, 2, 3, 4, 5, 6]);
    // With tile 0 dragging it must be drawn last; the rest keep slot
    // order, so the order is not the identity any more.
    rack.begin_drag(0, 110, 30).unwrap();
    assert_eq!(rack.draw_order(), vec![1, 2, 3, 4, 5, 6, 0]);
    // Dragging a middle tile.
    rack.end_drag().unwrap();
    rack.begin_drag(3, 290, 30).unwrap();
    assert_eq!(rack.draw_order(), vec![0, 1, 2, 4, 5, 6, 3]);
}
