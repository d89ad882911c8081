//! The obstacle field: batches generated ahead of the ball, their motion,
//! and the eviction of those left far behind.
use vstd::prelude::*;
use crate::physics::Ball;
use crate::units::state_ok;
use crate::random::{random_below, MAX_DRAW_SPAN};
use crate::units::{
    coord_ok, div_toward_zero, frame_ok, COORD_LIMIT, FRACTION_LIMIT, FRACTION_SCALE, MAX_VIEW,
};

verus! {

/// Side of an obstacle's sprite at scale one, in sub-pixels.
pub const OBSTACLE_SIZE: i64 = 64_000;

/// Gaps between consecutive obstacles of a batch lie in `[0, MAX_GAP)`.
pub const MAX_GAP: u32 = 150_000;

/// Leftmost normalised position of a new obstacle (a tenth of the width).
pub const X_MIN: i64 = 1_000;

/// New obstacles lie in `[X_MIN, X_MIN + X_SPAN)`, up to nine tenths.
pub const X_SPAN: u32 = 8_000;

/// One obstacle in this many, on average, is seeking.
pub const SEEKING_ONE_IN: u32 = 6;

/// A batch is generated once the ball is closer than this to the frontier.
pub const GENERATION_BUFFER: i64 = 300_000;

/// Height of the frontier before the first batch.
pub const FIRST_FRONTIER: i64 = -300_000;

/// Size of the first batch and of each later one.
pub const FIRST_BATCH: usize = 30;

pub const BATCH: usize = 90;

/// Horizontal drift per millisecond, in normalised units.
pub const DRIFT_PER_MS: i64 = 1;

/// Vertical homing speed of a seeking obstacle per millisecond, in sub-pixels.
pub const SEEK_PER_MS: i64 = 50;

#[derive(Clone, Copy, Debug, PartialEq, Eq, Structural)]
pub enum ObstacleKind {
    /// Drifts sideways with all other normal obstacles.
    Normal,
    /// Homes in on the ball.
    Seeking,
}

/// An obstacle: `x` is normalised (`FRACTION_SCALE` is the playfield's
/// width), `y` is the top of its sprite in sub-pixels, `scale` its size
/// multiplier.
#[derive(Clone, Copy, Debug, PartialEq, Eq)]
pub struct Obstacle {
    pub x: i64,
    pub y: i64,
    pub scale: u8,
    pub kind: ObstacleKind,
}

/// The random draws behind one obstacle.
#[derive(Clone, Copy, Debug, PartialEq, Eq)]
pub struct ObstacleRoll {
    /// Gap above the previous obstacle, below `MAX_GAP`.
    pub gap: u32,
    /// Offset from `X_MIN`, below `X_SPAN`.
    pub x_offset: u32,
    /// Zero for scale one, one for scale two.
    pub scale_roll: u32,
    /// Uniform over the categories; zero picks seeking.
    pub kind_roll: u32,
}

pub open spec fn roll_ok(r: ObstacleRoll) -> bool {
    r.gap < MAX_GAP && r.x_offset < X_SPAN && r.scale_roll < 2
}

pub open spec fn kind_for(kind_roll: int) -> ObstacleKind {
    if kind_roll == 0 {
        ObstacleKind::Seeking
    } else {
        ObstacleKind::Normal
    }
}

/// The height reached after placing the first `n` obstacles of a batch
/// that starts below `from_y`: each lies one obstacle size plus its gap
/// above the one before.
pub open spec fn batch_top(from_y: int, rolls: Seq<ObstacleRoll>, n: nat) -> int
    decreases n,
{
    if n == 0 {
        from_y
    } else {
        batch_top(from_y, rolls, (n - 1) as nat) - OBSTACLE_SIZE - rolls[n - 1].gap
    }
}

/// The obstacle that the `i`-th roll of a batch produces.
pub open spec fn placed(from_y: int, rolls: Seq<ObstacleRoll>, i: int) -> Obstacle {
    Obstacle {
        x: (X_MIN + rolls[i].x_offset) as i64,
        y: batch_top(from_y, rolls, (i + 1) as nat) as i64,
        scale: (1 + rolls[i].scale_roll) as u8,
        kind: kind_for(rolls[i].kind_roll as int),
    }
}

/// Consecutive obstacles climb by at least one obstacle size and at most one
/// size plus the largest gap, and each lies in the spawn ranges.
pub open spec fn well_spaced(from_y: int, batch: Seq<Obstacle>) -> bool {
    &&& forall|i: int|
        0 <= i < batch.len() ==> {
            &&& X_MIN <= #[trigger] batch[i].x < X_MIN + X_SPAN
            &&& 1 <= batch[i].scale <= 2
        }
    &&& batch.len() > 0 ==> from_y - OBSTACLE_SIZE - MAX_GAP < batch[0].y <= from_y - OBSTACLE_SIZE
    &&& forall|i: int|
        0 < i < batch.len() ==> batch[i - 1].y - OBSTACLE_SIZE - MAX_GAP < #[trigger] batch[i].y
            <= batch[i - 1].y - OBSTACLE_SIZE
}

/// Within any batch, each obstacle lies at least one obstacle size above
/// the one before (the first, above the starting height), and less than one
/// size plus the largest gap.
pub proof fn lemma_batch_spacing(from_y: int, rolls: Seq<ObstacleRoll>, n: nat)
    requires
        n < rolls.len(),
        roll_ok(rolls[n as int]),
    ensures
        batch_top(from_y, rolls, (n + 1) as nat) <= batch_top(from_y, rolls, n) - OBSTACLE_SIZE,
        batch_top(from_y, rolls, (n + 1) as nat) > batch_top(from_y, rolls, n) - OBSTACLE_SIZE - MAX_GAP,
{
}

proof fn lemma_batch_top_bounds(from_y: int, rolls: Seq<ObstacleRoll>, n: nat)
    requires
        n <= rolls.len(),
        forall|i: int| 0 <= i < rolls.len() ==> roll_ok(#[trigger] rolls[i]),
    ensures
        from_y - n * (OBSTACLE_SIZE + MAX_GAP) <= batch_top(from_y, rolls, n) <= from_y - n
            * OBSTACLE_SIZE,
    decreases n,
{
    if n > 0 {
        lemma_batch_top_bounds(from_y, rolls, (n - 1) as nat);
        assert(roll_ok(rolls[n - 1]));
    }
}

/// Whether a batch is due: the ball has come within the buffer of the
/// frontier.
pub fn should_spawn(ball_y: i64, frontier_y: i64) -> (r: bool)
    requires
        coord_ok(ball_y as int),
        coord_ok(frontier_y as int),
    ensures
        r == (ball_y < frontier_y + GENERATION_BUFFER),
{
    ball_y < frontier_y + GENERATION_BUFFER
}

/// The category that a roll picks: seeking for zero, normal otherwise.
pub fn kind_from_roll(kind_roll: u32) -> (r: ObstacleKind)
    ensures
        r == kind_for(kind_roll as int),
{
    if kind_roll == 0 {
        ObstacleKind::Seeking
    } else {
        ObstacleKind::Normal
    }
}

/// Places a batch of obstacles from its rolls, climbing from `from_y`.
/// Returns the batch and its topmost height, the new frontier.
pub fn build_batch(from_y: i64, rolls: &Vec<ObstacleRoll>) -> (r: (Vec<Obstacle>, i64))
    requires
        coord_ok(from_y as int),
        coord_ok(from_y - rolls.len() * (OBSTACLE_SIZE + MAX_GAP)),
        forall|i: int| 0 <= i < rolls.len() ==> roll_ok(#[trigger] rolls@[i]),
    ensures
        r.0.len() == rolls.len(),
        forall|i: int| 0 <= i < rolls.len() ==> #[trigger] r.0@[i] == placed(from_y as int, rolls@, i),
        r.1 == batch_top(from_y as int, rolls@, rolls.len() as nat),
        well_spaced(from_y as int, r.0@),
{
    let mut batch: Vec<Obstacle> = Vec::new();
    let mut y: i64 = from_y;
    let mut i: usize = 0;
    while i < rolls.len()
        invariant
            i <= rolls.len(),
            coord_ok(from_y as int),
            coord_ok(from_y - rolls.len() * (OBSTACLE_SIZE + MAX_GAP)),
            forall|k: int| 0 <= k < rolls.len() ==> roll_ok(#[trigger] rolls@[k]),
            batch.len() == i,
            y == batch_top(from_y as int, rolls@, i as nat),
            forall|k: int| 0 <= k < i ==> #[trigger] batch@[k] == placed(from_y as int, rolls@, k),
            well_spaced(from_y as int, batch@),
        decreases rolls.len() - i,
    {
        let roll = rolls[i];
        proof {
            lemma_batch_top_bounds(from_y as int, rolls@, i as nat);
            lemma_batch_top_bounds(from_y as int, rolls@, (i + 1) as nat);
            assert(roll_ok(rolls@[i as int]));
            let step: int = OBSTACLE_SIZE + MAX_GAP;
            assert((i + 1) * step <= rolls.len() * step) by (nonlinear_arith)
                requires
                    i + 1 <= rolls.len(),
                    step > 0,
            ;
        }
        let next_y: i64 = y - OBSTACLE_SIZE - roll.gap as i64;
        let o = Obstacle {
            x: X_MIN + roll.x_offset as i64,
            y: next_y,
            scale: (1 + roll.scale_roll) as u8,
            kind: kind_from_roll(roll.kind_roll),
        };
        proof {
            lemma_batch_top_bounds(from_y as int, rolls@, (i + 1) as nat);
            if i > 0 {
                assert(batch@[i - 1] == placed(from_y as int, rolls@, i - 1));
            }
        }
        batch.push(o);
        y = next_y;
        i = i + 1;
    }
    (batch, y)
}

/// Draws the rolls of one obstacle.
fn draw_roll(seeking_one_in: u32) -> (r: ObstacleRoll)
    requires
        0 < seeking_one_in <= MAX_DRAW_SPAN,
    ensures
        roll_ok(r),
        r.kind_roll < seeking_one_in,
{
    ObstacleRoll {
        gap: random_below(MAX_GAP),
        x_offset: random_below(X_SPAN),
        scale_roll: random_below(2),
        kind_roll: random_below(seeking_one_in),
    }
}

/// Generates `amount` obstacles above `from_y`, appends them to
/// `obstacles`, and returns the new frontier: the height of the topmost one,
/// or `from_y` for an empty batch. One obstacle in `seeking_one_in`, on
/// average, is seeking.
pub fn spawn_batch(obstacles: &mut Vec<Obstacle>, from_y: i64, amount: usize, seeking_one_in: u32) -> (frontier: i64)
    requires
        coord_ok(from_y as int),
        coord_ok(from_y - amount * (OBSTACLE_SIZE + MAX_GAP)),
        0 < seeking_one_in <= MAX_DRAW_SPAN,
    ensures
        final(obstacles).len() == old(obstacles).len() + amount,
        final(obstacles)@.take(old(obstacles).len() as int) == old(obstacles)@,
        well_spaced(from_y as int, final(obstacles)@.skip(old(obstacles).len() as int)),
        amount == 0 ==> frontier == from_y,
        amount > 0 ==> frontier == final(obstacles)@.last().y,
        from_y - amount * (OBSTACLE_SIZE + MAX_GAP) <= frontier <= from_y - amount * OBSTACLE_SIZE,
{
    let mut rolls: Vec<ObstacleRoll> = Vec::new();
    let mut i: usize = 0;
    while i < amount
        invariant
            i <= amount,
            0 < seeking_one_in <= MAX_DRAW_SPAN,
            rolls.len() == i,
            forall|k: int| 0 <= k < i ==> roll_ok(#[trigger] rolls@[k]),
        decreases amount - i,
    {
        rolls.push(draw_roll(seeking_one_in));
        i = i + 1;
    }
    let (mut batch, frontier) = build_batch(from_y, &rolls);
    proof {
        lemma_batch_top_bounds(from_y as int, rolls@, amount as nat);
        if amount > 0 {
            assert(batch@.last() == placed(from_y as int, rolls@, amount - 1));
        }
    }
    let ghost before = obstacles@;
    let ghost added = batch@;
    obstacles.append(&mut batch);
    assert(obstacles@.take(before.len() as int) =~= before);
    assert(obstacles@.skip(before.len() as int) =~= added);
    frontier
}

/// Turning point of the shared oscillator.
pub const OSCILLATOR_MAX: i64 = 255;

/// The shared oscillator: a counter that climbs to `OSCILLATOR_MAX`, falls
/// back to zero, and so on. Normal obstacles drift left while it falls.
#[derive(Clone, Copy, Debug, PartialEq, Eq)]
pub struct Oscillator {
    pub tick: i64,
    pub reversing: bool,
}

pub open spec fn oscillated(o: Oscillator) -> Oscillator {
    let tick = if o.reversing {
        o.tick - 1
    } else {
        o.tick + 1
    };
    let reversing = if tick >= OSCILLATOR_MAX {
        true
    } else if tick <= 0 {
        false
    } else {
        o.reversing
    };
    Oscillator { tick: tick as i64, reversing }
}

impl Oscillator {
    /// The counter stays in `[0, OSCILLATOR_MAX]` and turns at both ends.
    pub open spec fn wf(&self) -> bool {
        &&& 0 <= self.tick <= OSCILLATOR_MAX
        &&& self.tick == 0 ==> !self.reversing
        &&& self.tick == OSCILLATOR_MAX ==> self.reversing
    }

    pub fn new() -> (r: Oscillator)
        ensures
            r.tick == 0,
            !r.reversing,
            r.wf(),
    {
        Oscillator { tick: 0, reversing: false }
    }

    /// Advances the counter by one tick.
    pub fn advance(&mut self)
        requires
            old(self).wf(),
        ensures
            *final(self) == oscillated(*old(self)),
            final(self).wf(),
    {
        let tick: i64 = if self.reversing {
            self.tick - 1
        } else {
            self.tick + 1
        };
        if tick >= OSCILLATOR_MAX {
            self.reversing = true;
        } else if tick <= 0 {
            self.reversing = false;
        }
        self.tick = tick;
    }
}

/// Horizontal position on screen, in sub-pixels, of a normalised `x`.
pub open spec fn screen_x(x: int, width: int) -> int {
    div_toward_zero(x * width, FRACTION_SCALE as int)
}

/// Whether an obstacle at height `y` lies within one view height of the
/// ball, above or below: only those move and are tested for contact.
pub open spec fn visible(y: int, ball_y: int, view_height: int) -> bool {
    ball_y - view_height <= y <= ball_y + view_height
}

/// Bounds of a stored obstacle between two ticks.
pub open spec fn obstacle_state_ok(o: Obstacle) -> bool {
    -FRACTION_LIMIT <= o.x <= FRACTION_LIMIT && state_ok(o.y as int) && 1 <= o.scale <= 2
}

/// Bounds of an obstacle within a tick.
pub open spec fn obstacle_ok(o: Obstacle) -> bool {
    -2 * FRACTION_LIMIT <= o.x <= 2 * FRACTION_LIMIT && coord_ok(o.y as int) && 1 <= o.scale <= 2
}

/// One tick of motion. A normal obstacle drifts sideways, left when
/// `drift_left`; a seeking one steps toward the ball on both axes.
pub open spec fn drifted(o: Obstacle, ball: Ball, dt: int, drift_left: bool, width: int) -> Obstacle {
    let step = DRIFT_PER_MS * dt;
    match o.kind {
        ObstacleKind::Normal => Obstacle {
            x: (if drift_left {
                o.x - step
            } else {
                o.x + step
            }) as i64,
            ..o
        },
        ObstacleKind::Seeking => Obstacle {
            x: (if screen_x(o.x as int, width) > ball.x {
                o.x - step
            } else {
                o.x + step
            }) as i64,
            y: (if o.y < ball.y {
                o.y + SEEK_PER_MS * dt
            } else {
                o.y - SEEK_PER_MS * dt
            }) as i64,
            ..o
        },
    }
}

pub fn screen_x_exec(x: i64, width: i64) -> (r: i64)
    requires
        -2 * FRACTION_LIMIT <= x <= 2 * FRACTION_LIMIT,
        0 < width <= MAX_VIEW,
    ensures
        r == screen_x(x as int, width as int),
        -COORD_LIMIT / 8 <= r <= COORD_LIMIT / 8,
{
    proof {
        assert(-2 * FRACTION_LIMIT * MAX_VIEW <= x * width <= 2 * FRACTION_LIMIT * MAX_VIEW)
            by (nonlinear_arith)
            requires
                -2 * FRACTION_LIMIT <= x <= 2 * FRACTION_LIMIT,
                0 < width <= MAX_VIEW,
        ;
    }
    x * width / FRACTION_SCALE
}

/// Moves one obstacle by one tick.
pub fn drift_obstacle(o: Obstacle, ball: &Ball, dt_ms: i64, drift_left: bool, width: i64) -> (r: Obstacle)
    requires
        obstacle_state_ok(o),
        coord_ok(ball.x as int),
        coord_ok(ball.y as int),
        frame_ok(dt_ms as int),
        0 < width <= MAX_VIEW,
    ensures
        r == drifted(o, *ball, dt_ms as int, drift_left, width as int),
        obstacle_ok(r),
{
    let step: i64 = DRIFT_PER_MS * dt_ms;
    match o.kind {
        ObstacleKind::Normal => {
            let x: i64 = if drift_left {
                o.x - step
            } else {
                o.x + step
            };
            Obstacle { x, ..o }
        },
        ObstacleKind::Seeking => {
            let x: i64 = if screen_x_exec(o.x, width) > ball.x {
                o.x - step
            } else {
                o.x + step
            };
            let y: i64 = if o.y < ball.y {
                o.y + SEEK_PER_MS * dt_ms
            } else {
                o.y - SEEK_PER_MS * dt_ms
            };
            Obstacle { x, y, ..o }
        },
    }
}

/// Every obstacle within one view height of the ball moved by one tick; the
/// others where they were.
pub open spec fn advanced(
    obstacles: Seq<Obstacle>,
    ball: Ball,
    dt: int,
    drift_left: bool,
    width: int,
    view_height: int,
) -> Seq<Obstacle> {
    Seq::new(
        obstacles.len(),
        |i: int|
            if visible(obstacles[i].y as int, ball.y as int, view_height) {
                drifted(obstacles[i], ball, dt, drift_left, width)
            } else {
                obstacles[i]
            },
    )
}

/// Moves every obstacle within one view height of the ball by one tick;
/// the others stay where they are.
pub fn advance_obstacles(
    obstacles: &mut Vec<Obstacle>,
    ball: &Ball,
    dt_ms: i64,
    drift_left: bool,
    width: i64,
    view_height: i64,
)
    requires
        forall|i: int| 0 <= i < old(obstacles).len() ==> obstacle_state_ok(#[trigger] old(obstacles)@[i]),
        coord_ok(ball.x as int),
        coord_ok(ball.y as int),
        frame_ok(dt_ms as int),
        0 < width <= MAX_VIEW,
        0 <= view_height <= MAX_VIEW,
    ensures
        final(obstacles)@ == advanced(
            old(obstacles)@,
            *ball,
            dt_ms as int,
            drift_left,
            width as int,
            view_height as int,
        ),
        final(obstacles).len() == old(obstacles).len(),
        forall|i: int|
            0 <= i < old(obstacles).len() ==> #[trigger] final(obstacles)@[i] == if visible(
                old(obstacles)@[i].y as int,
                ball.y as int,
                view_height as int,
            ) {
                drifted(old(obstacles)@[i], *ball, dt_ms as int, drift_left, width as int)
            } else {
                old(obstacles)@[i]
            },
        forall|i: int| 0 <= i < final(obstacles).len() ==> obstacle_ok(#[trigger] final(obstacles)@[i]),
{
    let ghost before = obstacles@;
    let mut i: usize = 0;
    while i < obstacles.len()
        invariant
            obstacles.len() == before.len(),
            i <= obstacles.len(),
            forall|k: int| 0 <= k < before.len() ==> obstacle_state_ok(#[trigger] before[k]),
            coord_ok(ball.x as int),
            coord_ok(ball.y as int),
            frame_ok(dt_ms as int),
            0 < width <= MAX_VIEW,
            0 <= view_height <= MAX_VIEW,
            forall|k: int|
                0 <= k < i ==> #[trigger] obstacles@[k] == if visible(
                    before[k].y as int,
                    ball.y as int,
                    view_height as int,
                ) {
                    drifted(before[k], *ball, dt_ms as int, drift_left, width as int)
                } else {
                    before[k]
                },
            forall|k: int| i <= k < before.len() ==> #[trigger] obstacles@[k] == before[k],
            forall|k: int| 0 <= k < i ==> obstacle_ok(#[trigger] obstacles@[k]),
        decreases before.len() - i,
    {
        let o = obstacles[i];
        assert(obstacle_state_ok(before[i as int]));
        if ball.y - view_height <= o.y && o.y <= ball.y + view_height {
            let moved = drift_obstacle(o, ball, dt_ms, drift_left, width);
            obstacles.set(i, moved);
        }
        i = i + 1;
    }
    assert(obstacles@ =~= advanced(before, *ball, dt_ms as int, drift_left, width as int, view_height as int));
}

/// Whether an obstacle is kept: it lies no more than `trailing` below the
/// ball.
pub open spec fn kept(o: Obstacle, ball_y: int, trailing: int) -> bool {
    o.y <= ball_y + trailing
}

/// Drops the obstacles that lie more than `trailing` below the ball,
/// keeping the order of the rest.
pub fn evict_behind(obstacles: &mut Vec<Obstacle>, ball_y: i64, trailing: i64)
    requires
        coord_ok(ball_y as int),
        0 <= trailing <= COORD_LIMIT,
    ensures
        final(obstacles)@ == old(obstacles)@.filter(|o: Obstacle| kept(o, ball_y as int, trailing as int)),
{
    let ghost pred = |o: Obstacle| kept(o, ball_y as int, trailing as int);
    let ghost before = obstacles@;
    let mut rest: Vec<Obstacle> = Vec::new();
    let mut i: usize = 0;
    while i < obstacles.len()
        invariant
            obstacles@ == before,
            i <= before.len(),
            coord_ok(ball_y as int),
            0 <= trailing <= COORD_LIMIT,
            pred == (|o: Obstacle| kept(o, ball_y as int, trailing as int)),
            rest@ == before.take(i as int).filter(pred),
        decreases before.len() - i,
    {
        let o = obstacles[i];
        proof {
            assert(before.take(i + 1) =~= before.take(i as int).push(o));
            before.take(i as int).lemma_filter_push(o, pred);
            assert(pred(o) == (o.y <= ball_y + trailing));
        }
        if o.y <= ball_y + trailing {
            rest.push(o);
        }
        i = i + 1;
    }
    assert(before.take(before.len() as int) =~= before);
    *obstacles = rest;
}

} // verus!
