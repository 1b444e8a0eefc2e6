use tile_rack::Tile;

#[test]
fn new_tile_is_at_rest() {
    let t = Tile::new(120, 40, 'Q');
    assert_eq!(t.x, 120);
    assert_eq!(t.y, 40);
    assert_eq!(t.letter, 'Q');
    assert!(!t.dragging);
    assert!(t.grab_offset.is_none());
    assert!(t.anim.is_none());
}

#[test]
fn set_position_changes_only_the_position() {
    let mut t = Tile::new(0, 0, 'Z');
    t.set_position(-35, 77);
    assert_eq!(t.x, -35);
    assert_eq!(t.y, 77);
    assert_eq!(t.letter, 'Z');
    assert!(!t.dragging);
    assert!(t.grab_offset.is_none());
    assert!(t.anim.is_none());
}
