use bouncy_ball::life::Life;
use bouncy_ball::obstacles::{Obstacle, ObstacleKind};
use bouncy_ball::physics::{Ball, Point};
use bouncy_ball::world::{TickInput, World};

fn idle(dt_ms: i64) -> TickInput {
    TickInput { dt_ms, pointer: Point { x: 0, y: 0 }, pressed: false, view_height: 800_000 }
}

fn press_below(w: &World) -> TickInput {
    let pointer = Point { x: w.ball.x + 32_000, y: w.ball.y + 132_000 };
    TickInput { dt_ms: 16, pointer, pressed: true, view_height: 800_000 }
}

#[test]
fn new_world_starts_alive_at_rest() {
    let w = World::new(600_000, 6, 2_000_000);
    assert_eq!(w.ball, Ball { x: 300_000, y: 0, vx: 0, vy: 0 });
    assert_eq!(w.life, Life::Alive);
    assert_eq!(w.obstacles.len(), 30);
    assert!(w.frontier <= -300_000 - 30 * 64_000);
    assert_eq!(w.displayed_score(), 0);
    assert!(w.within_limits());
    assert_eq!(w.tiles.size, 600_000);
}

#[test]
fn idle_tick_falls() {
    let mut w = World::new(600_000, 6, 2_000_000);
    w.obstacles.clear();
    w.frontier = -10_000_000;
    let ev = w.tick(&idle(16));
    assert!(!ev.wall_hit && !ev.died && !ev.spawned);
    assert_eq!(w.ball, Ball { x: 300_000, y: 0, vx: 0, vy: -1_200 });
    w.tick(&idle(16));
    assert_eq!(w.ball, Ball { x: 300_000, y: 360, vx: 0, vy: -2_400 });
    assert_eq!(w.displayed_score(), 0);
    assert_eq!(w.oscillator.tick, 2);
}

#[test]
fn press_launches_and_score_climbs() {
    let mut w = World::new(600_000, 6, 2_000_000);
    w.obstacles.clear();
    w.frontier = -100_000_000;
    let input = press_below(&w);
    w.tick(&input);
    assert_eq!(w.ball.vy, 36_000 - 1_200);
    assert_eq!(w.ball.y, 0);
    w.tick(&idle(16));
    assert_eq!(w.ball.y, -10_440);
    // one point per whole pixel of climb, rounded toward zero
    assert_eq!(w.displayed_score(), 10);
    let mut last = w.displayed_score();
    for _ in 0..40 {
        w.tick(&idle(16));
        assert!(w.displayed_score() >= last);
        last = w.displayed_score();
    }
}

#[test]
fn contact_kills_and_death_is_final() {
    let mut w = World::new(600_000, 6, 2_000_000);
    w.obstacles = vec![Obstacle { x: 5_000, y: 0, scale: 1, kind: ObstacleKind::Normal }];
    w.frontier = -100_000_000;
    let ev = w.tick(&idle(16));
    assert!(ev.died);
    assert_eq!(w.life, Life::Dead);
    assert_eq!(w.fade, 8_000);
    let score = w.score;
    for _ in 0..10 {
        let input = press_below(&w);
        let before = w.ball;
        let ev = w.tick(&input);
        assert!(!ev.died && !ev.spawned);
        assert_eq!(w.life, Life::Dead);
        // presses are ignored: only gravity acts on the vertical speed
        assert_eq!(w.ball.vy, before.vy - 1_200);
        assert_eq!(w.score, score);
    }
    assert_eq!(w.fade, 88_000);
}

#[test]
fn batch_spawns_near_frontier() {
    let mut w = World::new(600_000, 6, 2_000_000);
    w.obstacles.clear();
    w.frontier = -100_000;
    let ev = w.tick(&idle(0));
    assert!(ev.spawned);
    assert_eq!(w.obstacles.len(), 90);
    assert!(w.frontier <= -100_000 - 90 * 64_000);
    let ev = w.tick(&idle(0));
    assert!(!ev.spawned);
}

#[test]
fn far_behind_obstacles_are_dropped() {
    let mut w = World::new(600_000, 6, 1_000_000);
    w.obstacles = vec![
        Obstacle { x: 5_000, y: 5_000_000, scale: 1, kind: ObstacleKind::Normal },
        Obstacle { x: 5_000, y: -900_000, scale: 1, kind: ObstacleKind::Normal },
    ];
    w.frontier = -100_000_000;
    w.tick(&idle(16));
    assert_eq!(w.obstacles.len(), 1);
    assert_eq!(w.obstacles[0].y, -900_000);
}

#[test]
fn wall_bounce_in_tick_scores() {
    let mut w = World::new(600_000, 6, 2_000_000);
    w.obstacles.clear();
    w.frontier = -100_000_000;
    w.score.score = 50;
    w.ball = Ball { x: 560_000, y: 0, vx: 10_000, vy: 0 };
    let ev = w.tick(&idle(0));
    assert!(ev.wall_hit);
    assert_eq!(w.ball.vx, -18_000);
    assert_eq!(w.score.score, 125);
}
