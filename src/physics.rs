//! Ball motion: launch impulses, gravity, drag, integration and wall bounces.
use vstd::prelude::*;
use crate::units::{
    abs, coord_ok, state_ok, div_toward_zero, frame_ok, velocity_ok, COORD_LIMIT, MAX_VIEW,
    VELOCITY_LIMIT,
};

verus! {

/// Side of the ball's sprite, in sub-pixels.
pub const PLAYER_SIZE: i64 = 64_000;

/// Margin trimmed from every side of a sprite before collision tests.
pub const HITBOX_INSET: i64 = 10_000;

/// Horizontal speed given by a launch, per tick.
pub const IMPULSE_X: i64 = 24_000;

/// Vertical speed given by a launch, per tick.
pub const IMPULSE_Y: i64 = 36_000;

/// Loss of vertical speed per millisecond.
pub const GRAVITY_PER_MS: i64 = 75;

/// Horizontal drag: the speed keeps `DRAG_NUM / DRAG_DEN` of itself each tick.
pub const DRAG_NUM: i64 = 9;

pub const DRAG_DEN: i64 = 10;

/// Vertical speed converts to distance at `FALL_NUM / FALL_DEN` per tick.
pub const FALL_NUM: i64 = 3;

pub const FALL_DEN: i64 = 10;

/// A wall bounce reverses the horizontal speed and multiplies it by this.
pub const BOUNCE: i64 = 2;

/// Upper bound of the integer square root's search range.
pub const SQRT_RANGE: u128 = 1_152_921_504_606_846_976;

/// A point of the world, in sub-pixels; `y` grows downward.
#[derive(Clone, Copy, Debug, PartialEq, Eq)]
pub struct Point {
    pub x: i64,
    pub y: i64,
}

/// The ball: top-left corner of its sprite and its speed per tick. A positive
/// `vy` moves the ball up (toward smaller `y`).
#[derive(Clone, Copy, Debug, PartialEq, Eq)]
pub struct Ball {
    pub x: i64,
    pub y: i64,
    pub vx: i64,
    pub vy: i64,
}

pub ghost struct BallModel {
    pub x: int,
    pub y: int,
    pub vx: int,
    pub vy: int,
}

impl View for Ball {
    type V = BallModel;

    open spec fn view(&self) -> BallModel {
        BallModel { x: self.x as int, y: self.y as int, vx: self.vx as int, vy: self.vy as int }
    }
}

pub open spec fn is_floor_sqrt(n: int, r: int) -> bool {
    r >= 0 && r * r <= n < (r + 1) * (r + 1)
}

/// The largest integer whose square does not exceed `n`.
pub open spec fn floor_sqrt(n: int) -> int {
    choose|r: int| is_floor_sqrt(n, r)
}

pub proof fn lemma_floor_sqrt_unique(n: int, a: int, b: int)
    requires
        is_floor_sqrt(n, a),
        is_floor_sqrt(n, b),
    ensures
        a == b,
{
    if a < b {
        assert((a + 1) * (a + 1) <= b * b) by (nonlinear_arith)
            requires
                0 <= a < b,
        ;
    } else if b < a {
        assert((b + 1) * (b + 1) <= a * a) by (nonlinear_arith)
            requires
                0 <= b < a,
        ;
    }
}

/// Integer square root by bisection.
pub fn floor_sqrt_exec(n: u128) -> (r: u128)
    requires
        n < SQRT_RANGE * SQRT_RANGE,
    ensures
        r == floor_sqrt(n as int),
        is_floor_sqrt(n as int, r as int),
        r < SQRT_RANGE,
{
    let mut lo: u128 = 0;
    let mut hi: u128 = SQRT_RANGE;
    while lo + 1 < hi
        invariant
            lo < hi <= SQRT_RANGE,
            lo * lo <= n,
            n < hi * hi,
        decreases hi - lo,
    {
        let mid: u128 = lo + (hi - lo) / 2;
        assert(mid * mid <= SQRT_RANGE * SQRT_RANGE) by (nonlinear_arith)
            requires
                mid <= SQRT_RANGE,
        ;
        if mid * mid <= n {
            lo = mid;
        } else {
            hi = mid;
        }
    }
    proof {
        assert(is_floor_sqrt(n as int, lo as int));
        lemma_floor_sqrt_unique(n as int, lo as int, floor_sqrt(n as int));
    }
    lo
}

/// Horizontal offset from the aim point to the ball's centre.
pub open spec fn aim_dx(b: BallModel, aim: Point) -> int {
    b.x + PLAYER_SIZE / 2 - aim.x
}

/// Vertical offset from the aim point to the ball's centre.
pub open spec fn aim_dy(b: BallModel, aim: Point) -> int {
    b.y + PLAYER_SIZE / 2 - aim.y
}

/// Launch away from the aim point: the direction from the aim point to the
/// ball's centre, normalised, scaled by the two impulse constants. An aim
/// point on the centre itself launches nothing.
pub open spec fn launched(b: BallModel, aim: Point) -> BallModel {
    let dx = aim_dx(b, aim);
    let dy = aim_dy(b, aim);
    if dx == 0 && dy == 0 {
        b
    } else {
        let len = floor_sqrt(dx * dx + dy * dy);
        BallModel {
            vx: div_toward_zero(dx * IMPULSE_X, len),
            vy: -div_toward_zero(dy * IMPULSE_Y, len),
            ..b
        }
    }
}

/// Horizontal speed after one tick of drag.
pub open spec fn dragged(vx: int) -> int {
    div_toward_zero(vx * DRAG_NUM, DRAG_DEN as int)
}

/// The move by the speed that the ball had at the start of the tick.
pub open spec fn moved(b: BallModel) -> BallModel {
    BallModel { x: b.x + b.vx, y: b.y - div_toward_zero(b.vy * FALL_NUM, FALL_DEN as int), ..b }
}

/// Gravity on the vertical speed, drag on the horizontal one.
pub open spec fn accelerated(b: BallModel, dt: int) -> BallModel {
    BallModel { vx: dragged(b.vx), vy: b.vy - GRAVITY_PER_MS * dt, ..b }
}

/// The ball's trimmed hitbox reaches past the left edge (`x = 0`) or the
/// right edge (`x = width`) of the playfield.
pub open spec fn crosses_wall(x: int, width: int) -> bool {
    x + HITBOX_INSET < 0 || x + PLAYER_SIZE - HITBOX_INSET > width
}

pub open spec fn reflected(vx: int) -> int {
    -BOUNCE * vx
}

/// One tick of the ball: the move by its current speed, then the launch
/// from the new position, if any, then gravity and drag, then the bounce if
/// the new position crosses a wall. The flag tells whether it bounced.
pub open spec fn stepped(b: BallModel, dt: int, aim: Option<Point>, width: int) -> (BallModel, bool) {
    let m = moved(b);
    let l = match aim {
        Some(p) => launched(m, p),
        None => m,
    };
    let a = accelerated(l, dt);
    if crosses_wall(a.x, width) {
        (BallModel { vx: reflected(a.vx), ..a }, true)
    } else {
        (a, false)
    }
}

pub open spec fn ball_ok(b: BallModel) -> bool {
    state_ok(b.x) && state_ok(b.y) && velocity_ok(b.vx) && velocity_ok(b.vy)
}

proof fn lemma_root_bounds(d: int, n: int, len: int)
    requires
        d * d <= n,
        is_floor_sqrt(n, len),
    ensures
        abs(d) <= len,
{
    let a = abs(d);
    assert(a * a == d * d) by (nonlinear_arith)
        requires
            a == d || a == -d,
    ;
    if a > len {
        assert((len + 1) * (len + 1) <= a * a) by (nonlinear_arith)
            requires
                0 <= len < a,
        ;
    }
}

proof fn lemma_scaled_bounds(d: int, k: int, len: int)
    requires
        abs(d) <= len,
        0 < len,
        0 < k,
    ensures
        abs(div_toward_zero(d * k, len)) <= k,
        abs(d * k) <= len * k,
{
    let a = abs(d);
    assert(a * k <= len * k) by (nonlinear_arith)
        requires
            0 <= a <= len,
            0 < k,
    ;
    assert((len * k) / len == k) by (nonlinear_arith)
        requires
            0 < len,
    ;
    assert((a * k) / len <= (len * k) / len) by (nonlinear_arith)
        requires
            0 <= a * k <= len * k,
            0 < len,
    ;
    if d >= 0 {
        assert(d * k >= 0) by (nonlinear_arith)
            requires
                d >= 0,
                k > 0,
        ;
    } else {
        assert(-(d * k) == a * k) by (nonlinear_arith)
            requires
                a == -d,
        ;
    }
}

/// The velocity that a launch away from `aim` gives, or `None` when `aim` is
/// the ball's centre.
pub fn launch_velocity(b: &Ball, aim: &Point) -> (r: Option<(i64, i64)>)
    requires
        coord_ok(b.x as int),
        coord_ok(b.y as int),
        coord_ok(aim.x as int),
        coord_ok(aim.y as int),
    ensures
        match r {
            None => aim_dx(b@, *aim) == 0 && aim_dy(b@, *aim) == 0,
            Some((vx, vy)) => {
                &&& !(aim_dx(b@, *aim) == 0 && aim_dy(b@, *aim) == 0)
                &&& launched(b@, *aim) == (BallModel { vx: vx as int, vy: vy as int, ..b@ })
                &&& abs(vx as int) <= IMPULSE_X
                &&& abs(vy as int) <= IMPULSE_Y
            },
        },
{
    let dx: i64 = b.x + PLAYER_SIZE / 2 - aim.x;
    let dy: i64 = b.y + PLAYER_SIZE / 2 - aim.y;
    if dx == 0 && dy == 0 {
        return None;
    }
    let wx: i128 = dx as i128;
    let wy: i128 = dy as i128;
    proof {
        let bound: int = 5 * COORD_LIMIT;
        assert(-bound <= wx <= bound && -bound <= wy <= bound);
        assert(0 <= wx * wx <= bound * bound) by (nonlinear_arith)
            requires
                -bound <= wx <= bound,
        ;
        assert(0 <= wy * wy <= bound * bound) by (nonlinear_arith)
            requires
                -bound <= wy <= bound,
        ;
    }
    let sx: i128 = wx * wx;
    let sy: i128 = wy * wy;
    let n: u128 = (sx + sy) as u128;
    let len: u128 = floor_sqrt_exec(n);
    proof {
        let nn = dx * dx + dy * dy;
        assert(dx * dx <= nn && dy * dy <= nn);
        lemma_root_bounds(dx as int, nn, len as int);
        lemma_root_bounds(dy as int, nn, len as int);
        if len == 0 {
            assert(dx == 0 && dy == 0);
        }
        lemma_scaled_bounds(dx as int, IMPULSE_X as int, len as int);
        lemma_scaled_bounds(dy as int, IMPULSE_Y as int, len as int);
    }
    let l: i128 = len as i128;
    let vx: i128 = (wx * (IMPULSE_X as i128)) / l;
    let vy: i128 = (wy * (IMPULSE_Y as i128)) / l;
    assert(vx == div_toward_zero(dx * IMPULSE_X, len as int));
    assert(vy == div_toward_zero(dy * IMPULSE_Y, len as int));
    Some((vx as i64, -(vy as i64)))
}

/// The bounce off a wall: the horizontal speed reversed and amplified.
pub fn reflect_velocity(vx: i64) -> (r: i64)
    requires
        abs(vx as int) <= 2 * VELOCITY_LIMIT + IMPULSE_X,
    ensures
        r == reflected(vx as int),
        r == -BOUNCE * vx,
        vx > 0 ==> r < 0,
        vx < 0 ==> r > 0,
        abs(r as int) == BOUNCE * abs(vx as int),
{
    -BOUNCE * vx
}

/// Whether the ball's trimmed hitbox at `x` reaches past a side of a
/// playfield `width` wide.
pub fn hits_wall(x: i64, width: i64) -> (r: bool)
    requires
        coord_ok(x as int),
        0 < width <= MAX_VIEW,
    ensures
        r == crosses_wall(x as int, width as int),
{
    x + HITBOX_INSET < 0 || x + PLAYER_SIZE - HITBOX_INSET > width
}

/// Advances the ball by one tick of `dt_ms` milliseconds. `aim` is the point
/// that a launch pushes away from, on a press while alive. Returns whether
/// the ball bounced off a wall.
pub fn step_ball(ball: &mut Ball, dt_ms: i64, aim: Option<Point>, width: i64) -> (bounced: bool)
    requires
        ball_ok(old(ball)@),
        frame_ok(dt_ms as int),
        0 < width <= MAX_VIEW,
        match aim {
            Some(p) => coord_ok(p.x as int) && coord_ok(p.y as int),
            None => true,
        },
    ensures
        (final(ball)@, bounced) == stepped(old(ball)@, dt_ms as int, aim, width as int),
        abs(final(ball).x - old(ball).x) <= VELOCITY_LIMIT,
        abs(final(ball).y - old(ball).y) <= VELOCITY_LIMIT,
        abs(final(ball).vx as int) <= 2 * VELOCITY_LIMIT,
        abs(final(ball).vy as int) <= 2 * VELOCITY_LIMIT,
{
    ball.y = ball.y - ball.vy * FALL_NUM / FALL_DEN;
    ball.x = ball.x + ball.vx;
    if let Some(p) = aim {
        if let Some((vx, vy)) = launch_velocity(ball, &p) {
            ball.vx = vx;
            ball.vy = vy;
        }
    }
    assert(abs(ball.vx as int) <= VELOCITY_LIMIT);
    assert(abs(ball.vy as int) <= VELOCITY_LIMIT);
    let vy: i64 = ball.vy - GRAVITY_PER_MS * dt_ms;
    let vx: i64 = ball.vx * DRAG_NUM / DRAG_DEN;
    ball.vy = vy;
    ball.vx = vx;
    if hits_wall(ball.x, width) {
        ball.vx = reflect_velocity(vx);
        true
    } else {
        false
    }
}

/// A wall bounce reverses the horizontal speed that reaches the wall and
/// multiplies it by the bounce factor: the result has the opposite sign and
/// a larger magnitude.
pub proof fn lemma_wall_reflection(b: BallModel, dt: int, aim: Option<Point>, width: int)
    ensures
        ({
            let l = match aim {
                Some(p) => launched(moved(b), p),
                None => moved(b),
            };
            let v = accelerated(l, dt).vx;
            let (r, bounced) = stepped(b, dt, aim, width);
            &&& bounced == crosses_wall(accelerated(l, dt).x, width)
            &&& bounced ==> r.vx == -BOUNCE * v
            &&& bounced && v > 0 ==> r.vx < 0 && abs(r.vx) > abs(v)
            &&& bounced && v < 0 ==> r.vx > 0 && abs(r.vx) > abs(v)
        }),
{
}

} // verus!
