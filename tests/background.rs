use bouncy_ball::tiles::{parallax_offsets, TileRing, TILE_COUNT};

fn sorted_ys(ring: &TileRing) -> Vec<i64> {
    let mut ys: Vec<i64> = ring.tiles.iter().map(|t| t.y).collect();
    ys.sort();
    ys
}

fn assert_closed(ring: &TileRing) {
    assert_eq!(ring.tiles.len(), TILE_COUNT);
    let ys = sorted_ys(ring);
    for w in ys.windows(2) {
        assert_eq!(w[1] - w[0], ring.size);
    }
    for t in &ring.tiles {
        assert!(t.stars.quarter_turns < 4 && t.objects.quarter_turns < 4);
        assert!(t.stars.variant < 2 && t.objects.variant < 2);
    }
}

#[test]
fn fresh_ring_stacks_upward() {
    let ring = TileRing::new(600_000);
    let ys: Vec<i64> = ring.tiles.iter().map(|t| t.y).collect();
    assert_eq!(ys, vec![0, -600_000, -1_200_000, -1_800_000, -2_400_000, -3_000_000]);
    assert_eq!(ring.highest_y(), -3_000_000);
    assert_eq!(ring.lowest_y(), 0);
    assert_closed(&ring);
}

#[test]
fn camera_past_front_recycles_rear_tile() {
    let mut ring = TileRing::new(600_000);
    ring.update(-3_000_000, 800_000);
    assert_eq!(ring.highest_y(), -3_600_000);
    assert_eq!(ring.lowest_y(), -600_000);
    assert_eq!(ring.tiles[0].y, -3_600_000);
    assert_closed(&ring);
}

#[test]
fn camera_below_front_leaves_ring() {
    let mut ring = TileRing::new(600_000);
    let before: Vec<i64> = ring.tiles.iter().map(|t| t.y).collect();
    ring.update(-2_000_000, 800_000);
    let after: Vec<i64> = ring.tiles.iter().map(|t| t.y).collect();
    assert_eq!(before, after);
}

#[test]
fn long_jump_recycles_many_tiles() {
    let mut ring = TileRing::new(600_000);
    ring.update(-10_000_000, 800_000);
    let top = -10_000_000 - 400_000;
    assert!(ring.highest_y() <= top && top < ring.highest_y() + 600_000);
    assert_eq!(ring.highest_y(), -10_800_000);
    assert_closed(&ring);
}

#[test]
fn parallax_layers_scroll_at_different_rates() {
    assert_eq!(parallax_offsets(1_000, 0), (100, 125));
    assert_eq!(parallax_offsets(-15, 0), (-1, -1));
    assert_eq!(parallax_offsets(0, 0), (0, 0));
}
