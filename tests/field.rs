use bouncy_ball::collision::{ball_hitbox, detect_contact, obstacle_hitbox, overlaps, Hitbox};
use bouncy_ball::obstacles::{
    advance_obstacles, build_batch, drift_obstacle, evict_behind, kind_from_roll, should_spawn,
    spawn_batch, Obstacle, ObstacleKind, ObstacleRoll, Oscillator, MAX_GAP, OBSTACLE_SIZE,
    OSCILLATOR_MAX,
};
use bouncy_ball::physics::Ball;

fn normal(x: i64, y: i64, scale: u8) -> Obstacle {
    Obstacle { x, y, scale, kind: ObstacleKind::Normal }
}

#[test]
fn spawn_fires_only_inside_buffer() {
    assert!(!should_spawn(0, -300_000));
    assert!(should_spawn(-1, -300_000));
    assert!(!should_spawn(1, -300_000));
    assert!(should_spawn(-500_000, -300_000));
}

#[test]
fn overlapping_hitboxes_collide() {
    let ball = Hitbox { left: 10, right: 54, top: 10, bottom: 54 };
    let obstacle = Hitbox { left: 20, right: 84, top: 0, bottom: 64 };
    assert!(overlaps(&ball, &obstacle));
    let apart = Hitbox { left: 54, right: 90, top: 0, bottom: 64 };
    assert!(!overlaps(&ball, &apart));
}

#[test]
fn hitboxes_are_trimmed() {
    let ball = Ball { x: 0, y: 0, vx: 0, vy: 0 };
    assert_eq!(ball_hitbox(&ball), Hitbox { left: 10_000, right: 54_000, top: 10_000, bottom: 54_000 });
    let o = normal(5_000, -20_000, 2);
    // half of a 600-pixel playfield
    assert_eq!(
        obstacle_hitbox(&o, 600_000),
        Hitbox { left: 320_000, right: 408_000, top: 0, bottom: 88_000 }
    );
}

#[test]
fn ball_dies_on_scaled_obstacle() {
    let ball = Ball { x: 0, y: 0, vx: 0, vy: 0 };
    let near = vec![normal(0, -20_000, 2)];
    assert!(detect_contact(&ball, &near, 600_000));
    let far_right = vec![normal(9_000, 0, 1)];
    assert!(!detect_contact(&ball, &far_right, 600_000));
    // a scale-2 obstacle whose sprite starts 90 pixels above the ball
    let above = vec![normal(0, -90_000, 2)];
    assert!(detect_contact(&ball, &above, 600_000));
    let far_above = vec![normal(0, -500_000, 2)];
    assert!(!detect_contact(&ball, &far_above, 600_000));
    assert!(!detect_contact(&ball, &vec![], 600_000));
}

#[test]
fn batch_from_rolls() {
    let rolls = vec![
        ObstacleRoll { gap: 0, x_offset: 0, scale_roll: 0, kind_roll: 0 },
        ObstacleRoll { gap: 1_000, x_offset: 7_999, scale_roll: 1, kind_roll: 3 },
    ];
    let (batch, frontier) = build_batch(-300_000, &rolls);
    assert_eq!(
        batch,
        vec![
            Obstacle { x: 1_000, y: -364_000, scale: 1, kind: ObstacleKind::Seeking },
            Obstacle { x: 8_999, y: -429_000, scale: 2, kind: ObstacleKind::Normal },
        ]
    );
    assert_eq!(frontier, -429_000);
    let (empty, same) = build_batch(-300_000, &vec![]);
    assert!(empty.is_empty());
    assert_eq!(same, -300_000);
}

#[test]
fn kinds_from_rolls() {
    assert_eq!(kind_from_roll(0), ObstacleKind::Seeking);
    assert_eq!(kind_from_roll(1), ObstacleKind::Normal);
    assert_eq!(kind_from_roll(5), ObstacleKind::Normal);
}

#[test]
fn generated_batch_is_spaced() {
    let mut field = vec![normal(5_000, 0, 1)];
    let frontier = spawn_batch(&mut field, -300_000, 90, 6);
    assert_eq!(field.len(), 91);
    assert_eq!(field[0], normal(5_000, 0, 1));
    let mut prev = -300_000i64;
    for o in &field[1..] {
        assert!(o.y <= prev - OBSTACLE_SIZE);
        assert!(o.y > prev - OBSTACLE_SIZE - MAX_GAP as i64);
        assert!(o.x >= 1_000 && o.x < 9_000);
        assert!(o.scale == 1 || o.scale == 2);
        prev = o.y;
    }
    assert_eq!(frontier, prev);
    let mut none: Vec<Obstacle> = vec![];
    assert_eq!(spawn_batch(&mut none, -7, 0, 6), -7);
    assert!(none.is_empty());
}

#[test]
fn obstacles_move_by_kind() {
    let ball = Ball { x: 100_000, y: 0, vx: 0, vy: 0 };
    assert_eq!(drift_obstacle(normal(5_000, 0, 1), &ball, 16, false, 600_000).x, 5_016);
    assert_eq!(drift_obstacle(normal(5_000, 0, 1), &ball, 16, true, 600_000).x, 4_984);
    let seeker = Obstacle { x: 5_000, y: -100_000, scale: 1, kind: ObstacleKind::Seeking };
    // at 300 pixels, right of the ball: steps left and down toward it
    let moved = drift_obstacle(seeker, &ball, 16, false, 600_000);
    assert_eq!(moved, Obstacle { x: 4_984, y: -99_200, ..seeker });
    let below = Obstacle { x: 1_000, y: 100_000, ..seeker };
    assert_eq!(drift_obstacle(below, &ball, 10, true, 600_000), Obstacle { x: 1_010, y: 99_500, ..below });
}

#[test]
fn only_nearby_obstacles_move() {
    let ball = Ball { x: 100_000, y: 0, vx: 0, vy: 0 };
    let mut field = vec![normal(5_000, 0, 1), normal(5_000, -2_000_000, 1)];
    advance_obstacles(&mut field, &ball, 10, false, 600_000, 800_000);
    assert_eq!(field, vec![normal(5_010, 0, 1), normal(5_000, -2_000_000, 1)]);
}

#[test]
fn eviction_keeps_order_of_the_rest() {
    let mut field = vec![normal(1, 0, 1), normal(2, 1_000, 1), normal(3, 500, 1), normal(4, -9, 2)];
    evict_behind(&mut field, 0, 500);
    assert_eq!(field, vec![normal(1, 0, 1), normal(3, 500, 1), normal(4, -9, 2)]);
}

#[test]
fn oscillator_turns_at_both_ends() {
    let mut o = Oscillator::new();
    for _ in 0..OSCILLATOR_MAX {
        assert!(!o.reversing);
        o.advance();
    }
    assert_eq!(o, Oscillator { tick: OSCILLATOR_MAX, reversing: true });
    o.advance();
    assert_eq!(o, Oscillator { tick: OSCILLATOR_MAX - 1, reversing: true });
    for _ in 0..OSCILLATOR_MAX - 1 {
        o.advance();
    }
    assert_eq!(o, Oscillator { tick: 0, reversing: false });
    o.advance();
    assert_eq!(o.tick, 1);
}
