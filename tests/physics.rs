use bouncy_ball::physics::{
    floor_sqrt_exec, hits_wall, launch_velocity, reflect_velocity, step_ball, Ball, Point,
};

#[test]
fn wall_bounce_doubles_and_reverses() {
    assert_eq!(reflect_velocity(10), -20);
    assert_eq!(reflect_velocity(-7), 14);
    assert_eq!(reflect_velocity(0), 0);
}

#[test]
fn wall_reflection_opposes_sign() {
    for v in [-5000i64, -3, -1, 1, 2, 999, 24_000] {
        let r = reflect_velocity(v);
        assert_eq!(r, -2 * v);
        assert!(r.signum() == -v.signum());
        assert!(r.abs() > v.abs());
    }
}

#[test]
fn press_on_ball_centre_is_ignored() {
    let ball = Ball { x: 100_000, y: 500_000, vx: 0, vy: 0 };
    let centre = Point { x: 132_000, y: 532_000 };
    assert_eq!(launch_velocity(&ball, &centre), None);

    let mut pressed = ball;
    let mut idle = ball;
    let b1 = step_ball(&mut pressed, 16, Some(centre), 600_000);
    let b2 = step_ball(&mut idle, 16, None, 600_000);
    assert_eq!(pressed, idle);
    assert_eq!(b1, b2);
}

#[test]
fn launch_pushes_away_from_pointer() {
    let ball = Ball { x: 0, y: 0, vx: 0, vy: 0 };
    // pointer straight below the centre: full upward impulse
    assert_eq!(launch_velocity(&ball, &Point { x: 32_000, y: 42_000 }), Some((0, 36_000)));
    // pointer up and left by a 3-4-5 triangle
    assert_eq!(launch_velocity(&ball, &Point { x: 29_000, y: 28_000 }), Some((14_400, -28_800)));
    // pointer to the right: pushed left
    assert_eq!(launch_velocity(&ball, &Point { x: 40_000, y: 32_000 }), Some((-24_000, 0)));
}

#[test]
fn step_applies_gravity_drag_and_motion() {
    let mut ball = Ball { x: 100_000, y: 0, vx: 1_000, vy: 0 };
    let bounced = step_ball(&mut ball, 16, None, 600_000);
    assert!(!bounced);
    // moved by the speed it had, then gravity and drag
    assert_eq!(ball, Ball { x: 101_000, y: 0, vx: 900, vy: -1_200 });
    let mut sideways = Ball { x: 100_000, y: 0, vx: 10_000, vy: 0 };
    step_ball(&mut sideways, 0, None, 600_000);
    assert_eq!(sideways, Ball { x: 110_000, y: 0, vx: 9_000, vy: 0 });
    let mut rising = Ball { x: 100_000, y: 0, vx: 0, vy: 1_000 };
    step_ball(&mut rising, 0, None, 600_000);
    assert_eq!(rising.y, -300);
}

#[test]
fn step_bounces_off_left_wall() {
    let mut ball = Ball { x: -20_000, y: 0, vx: -1_000, vy: 0 };
    let bounced = step_ball(&mut ball, 0, None, 600_000);
    assert!(bounced);
    assert_eq!(ball, Ball { x: -21_000, y: 0, vx: 1_800, vy: 0 });
}

#[test]
fn step_bounces_off_right_wall() {
    let mut ball = Ball { x: 560_000, y: 0, vx: 10_000, vy: 0 };
    let bounced = step_ball(&mut ball, 0, None, 600_000);
    assert!(bounced);
    assert_eq!(ball.x, 570_000);
    assert_eq!(ball.vx, -18_000);
}

#[test]
fn launch_then_step() {
    let mut ball = Ball { x: 268_000, y: 0, vx: 0, vy: 0 };
    let bounced = step_ball(&mut ball, 10, Some(Point { x: 300_000, y: 100_000 }), 600_000);
    assert!(!bounced);
    // launched straight up at 36000, then gravity of 750
    assert_eq!(ball.vy, 35_250);
    // the move used the speed from before the launch
    assert_eq!(ball.y, 0);
    assert_eq!(ball.x, 268_000);
}

#[test]
fn wall_test_uses_trimmed_hitbox() {
    assert!(!hits_wall(-10_000, 600_000));
    assert!(hits_wall(-10_001, 600_000));
    assert!(!hits_wall(546_000, 600_000));
    assert!(hits_wall(546_001, 600_000));
}

#[test]
fn integer_square_root() {
    assert_eq!(floor_sqrt_exec(0), 0);
    assert_eq!(floor_sqrt_exec(15), 3);
    assert_eq!(floor_sqrt_exec(16), 4);
    assert_eq!(floor_sqrt_exec(1_000_000_000_000_000_000_000_000_000_000), 1_000_000_000_000_000);
}
