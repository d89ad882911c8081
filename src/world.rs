//! The world state and the per-tick update that runs every component in
//! turn.
use vstd::prelude::*;
use crate::collision::{detect_contact, in_contact};
use crate::life::{advance_fade, faded, next_life, next_life_spec, Life, FADE_FULL};
use crate::obstacles::{
    advance_obstacles, advanced, evict_behind, kept, obstacle_state_ok, should_spawn, spawn_batch,
    Obstacle, Oscillator, oscillated, BATCH, FIRST_BATCH, FIRST_FRONTIER, GENERATION_BUFFER,
    OBSTACLE_SIZE, MAX_GAP, well_spaced,
};
use crate::physics::{step_ball, stepped, Ball, Point};
use crate::random::MAX_DRAW_SPAN;
use crate::score::{bounce_score, climbed, ScoreModel, ScoreTracker};
use crate::tiles::{recycled, TileRing, TILE_COUNT};
use crate::units::{
    coord_ok, frame_ok, state_ok, velocity_ok, FRACTION_LIMIT, MAX_VIEW, STATE_LIMIT, VELOCITY_LIMIT,
};

verus! {

/// What one tick reads from the outside: the frame time, the pointer in
/// world coordinates, whether the primary button went down this frame, and
/// the viewport's height.
#[derive(Clone, Copy, Debug, PartialEq, Eq)]
pub struct TickInput {
    pub dt_ms: i64,
    pub pointer: Point,
    pub pressed: bool,
    pub view_height: i64,
}

/// What happened during one tick, for the sound and display layers.
#[derive(Clone, Copy, Debug, PartialEq, Eq)]
pub struct TickEvents {
    /// The ball bounced off a wall.
    pub wall_hit: bool,
    /// The ball touched an obstacle while alive.
    pub died: bool,
    /// A new batch of obstacles was generated.
    pub spawned: bool,
}

/// The whole simulation state.
#[derive(Debug)]
pub struct World {
    pub ball: Ball,
    pub obstacles: Vec<Obstacle>,
    /// Height above which no obstacle has been generated yet.
    pub frontier: i64,
    pub tiles: TileRing,
    pub score: ScoreTracker,
    pub life: Life,
    /// Opacity of the death fade, out of `FADE_FULL`.
    pub fade: i64,
    pub oscillator: Oscillator,
    /// Width of the playfield, in sub-pixels.
    pub width: i64,
    /// One obstacle in this many, on average, is seeking.
    pub seeking_one_in: u32,
    /// Obstacles more than this far below the ball are dropped.
    pub trailing: i64,
}

/// The obstacles of `w` after one tick's motion with the ball now at `ball`,
/// without those left too far behind it.
pub open spec fn survivors(w: &World, ball: Ball, input: &TickInput) -> Seq<Obstacle> {
    advanced(
        w.obstacles@,
        ball,
        input.dt_ms as int,
        w.oscillator.reversing,
        w.width as int,
        input.view_height as int,
    ).filter(|o: Obstacle| kept(o, ball.y as int, w.trailing as int))
}

impl World {
    pub open spec fn wf(&self) -> bool {
        &&& 0 < self.width <= MAX_VIEW
        &&& 0 < self.seeking_one_in <= MAX_DRAW_SPAN
        &&& 0 <= self.trailing <= STATE_LIMIT
        &&& self.tiles.wf()
        &&& self.tiles.size == self.width
        &&& self.score.wf()
        &&& self.oscillator.wf()
        &&& 0 <= self.fade <= FADE_FULL
    }

    /// Every stored coordinate and speed is small enough for one more tick.
    pub open spec fn limits_ok(&self) -> bool {
        &&& state_ok(self.ball.x as int)
        &&& state_ok(self.ball.y as int)
        &&& velocity_ok(self.ball.vx as int)
        &&& velocity_ok(self.ball.vy as int)
        &&& state_ok(self.frontier as int)
        &&& forall|i: int| 0 <= i < self.obstacles.len() ==> obstacle_state_ok(#[trigger] self.obstacles@[i])
        &&& forall|i: int| 0 <= i < self.tiles.tiles.len() ==> state_ok(#[trigger] self.tiles.tiles@[i].y as int)
    }

    /// A new run on a playfield `width` wide: the ball at rest at the top
    /// centre, the first batch of obstacles above it, the background ring
    /// stacked upward from it.
    pub fn new(width: i64, seeking_one_in: u32, trailing: i64) -> (r: World)
        requires
            0 < width <= MAX_VIEW,
            0 < seeking_one_in <= MAX_DRAW_SPAN,
            0 <= trailing <= STATE_LIMIT,
        ensures
            r.wf(),
            r.ball == (Ball { x: (width / 2) as i64, y: 0, vx: 0, vy: 0 }),
            r.life == Life::Alive,
            r.fade == 0,
            r.score.score == 0,
            r.score.highest_y == 0,
            r.obstacles.len() == FIRST_BATCH,
            well_spaced(FIRST_FRONTIER as int, r.obstacles@),
            r.frontier == r.obstacles@.last().y,
            r.tiles.rear == 0,
            r.tiles.tiles@[0].y == 0,
            forall|i: int| 0 < i < TILE_COUNT ==> #[trigger] r.tiles.tiles@[i].y == r.tiles.tiles@[i - 1].y - width,
            FIRST_FRONTIER - FIRST_BATCH * (OBSTACLE_SIZE + MAX_GAP) <= r.frontier <= FIRST_FRONTIER
                - FIRST_BATCH * OBSTACLE_SIZE,
            r.width == width,
            r.seeking_one_in == seeking_one_in,
            r.trailing == trailing,
    {
        let mut obstacles: Vec<Obstacle> = Vec::new();
        let frontier = spawn_batch(&mut obstacles, FIRST_FRONTIER, FIRST_BATCH, seeking_one_in);
        assert(obstacles@.skip(0) =~= obstacles@);
        World {
            ball: Ball { x: width / 2, y: 0, vx: 0, vy: 0 },
            obstacles,
            frontier,
            tiles: TileRing::new(width),
            score: ScoreTracker::new(),
            life: Life::Alive,
            fade: 0,
            oscillator: Oscillator::new(),
            width,
            seeking_one_in,
            trailing,
        }
    }

    /// Whether every stored value is small enough for one more tick.
    pub fn within_limits(&self) -> (r: bool)
        requires
            self.wf(),
        ensures
            r == self.limits_ok(),
    {
        let b = &self.ball;
        if !(-STATE_LIMIT <= b.x && b.x <= STATE_LIMIT && -STATE_LIMIT <= b.y && b.y <= STATE_LIMIT) {
            return false;
        }
        if !(-VELOCITY_LIMIT <= b.vx && b.vx <= VELOCITY_LIMIT
            && -VELOCITY_LIMIT <= b.vy && b.vy <= VELOCITY_LIMIT) {
            return false;
        }
        if !(-STATE_LIMIT <= self.frontier && self.frontier <= STATE_LIMIT) {
            return false;
        }
        let mut i: usize = 0;
        while i < self.obstacles.len()
            invariant
                i <= self.obstacles.len(),
                forall|k: int| 0 <= k < i ==> obstacle_state_ok(#[trigger] self.obstacles@[k]),
            decreases self.obstacles.len() - i,
        {
            let o = &self.obstacles[i];
            if !(-FRACTION_LIMIT <= o.x && o.x <= FRACTION_LIMIT
                && -STATE_LIMIT <= o.y && o.y <= STATE_LIMIT && 1 <= o.scale && o.scale <= 2) {
                return false;
            }
            i = i + 1;
        }
        let mut j: usize = 0;
        while j < self.tiles.tiles.len()
            invariant
                j <= self.tiles.tiles.len(),
                forall|k: int| 0 <= k < j ==> state_ok(#[trigger] self.tiles.tiles@[k].y as int),
            decreases self.tiles.tiles.len() - j,
        {
            let y = self.tiles.tiles[j].y;
            if !(-STATE_LIMIT <= y && y <= STATE_LIMIT) {
                return false;
            }
            j = j + 1;
        }
        true
    }

    /// The score shown to the player.
    pub fn displayed_score(&self) -> (r: i64)
        requires
            self.wf(),
        ensures
            r == -self.score.score,
    {
        self.score.displayed_score()
    }

    pub fn is_dead(&self) -> (r: bool)
        ensures
            r == (self.life == Life::Dead),
    {
        match self.life {
            Life::Dead => true,
            Life::Alive => false,
        }
    }

    /// Runs one tick: the ball moves (launched on a press while alive), the
    /// nearby obstacles move, contact kills the ball; obstacles far behind
    /// are dropped, then, while alive, a batch is generated when due; the
    /// background recycles, and, while alive, the score follows the bounce
    /// and the altitude; while dead the fade advances.
    pub fn tick(&mut self, input: &TickInput) -> (events: TickEvents)
        requires
            old(self).wf(),
            old(self).limits_ok(),
            frame_ok(input.dt_ms as int),
            0 <= input.view_height <= MAX_VIEW,
            coord_ok(input.pointer.x as int),
            coord_ok(input.pointer.y as int),
        ensures
            final(self).wf(),
            final(self).width == old(self).width,
            final(self).seeking_one_in == old(self).seeking_one_in,
            final(self).trailing == old(self).trailing,
            (final(self).ball@, events.wall_hit) == stepped(
                old(self).ball@,
                input.dt_ms as int,
                if input.pressed && old(self).life == Life::Alive {
                    Some(input.pointer)
                } else {
                    None
                },
                old(self).width as int,
            ),
            final(self).life == next_life_spec(
                old(self).life,
                in_contact(
                    final(self).ball,
                    advanced(
                        old(self).obstacles@,
                        final(self).ball,
                        input.dt_ms as int,
                        old(self).oscillator.reversing,
                        old(self).width as int,
                        input.view_height as int,
                    ),
                    old(self).width as int,
                ),
            ),
            old(self).life == Life::Dead ==> final(self).life == Life::Dead,
            events.died == (old(self).life == Life::Alive && final(self).life == Life::Dead),
            events.spawned == (final(self).life == Life::Alive && final(self).ball.y
                < old(self).frontier + GENERATION_BUFFER),
            !events.spawned ==> {
                &&& final(self).frontier == old(self).frontier
                &&& final(self).obstacles@ == survivors(old(self), final(self).ball, input)
            },
            events.spawned ==> {
                let before = survivors(old(self), final(self).ball, input);
                &&& final(self).obstacles.len() == before.len() + BATCH
                &&& final(self).obstacles@.take(before.len() as int) == before
                &&& well_spaced(old(self).frontier as int, final(self).obstacles@.skip(before.len() as int))
                &&& final(self).frontier == final(self).obstacles@.last().y
                &&& old(self).frontier - BATCH * (OBSTACLE_SIZE + MAX_GAP) <= final(self).frontier
                    <= old(self).frontier - BATCH * OBSTACLE_SIZE
            },
            final(self).life == Life::Alive ==> final(self).score@ == climbed(
                if events.wall_hit {
                    ScoreModel { score: bounce_score(old(self).score.score as int), ..old(self).score@ }
                } else {
                    old(self).score@
                },
                final(self).ball.y as int,
            ),
            final(self).life == Life::Dead ==> final(self).score == old(self).score,
            final(self).life == Life::Dead ==> final(self).fade == faded(old(self).fade as int, input.dt_ms as int),
            final(self).life == Life::Alive ==> final(self).fade == old(self).fade,
            final(self).oscillator == oscillated(old(self).oscillator),
            recycled(&old(self).tiles, &final(self).tiles, final(self).ball.y - input.view_height / 2),
    {
        let dt: i64 = input.dt_ms;
        let was_alive = !self.is_dead();
        let aim: Option<Point> = if input.pressed && was_alive {
            Some(input.pointer)
        } else {
            None
        };
        let wall_hit = step_ball(&mut self.ball, dt, aim, self.width);
        advance_obstacles(
            &mut self.obstacles,
            &self.ball,
            dt,
            self.oscillator.reversing,
            self.width,
            input.view_height,
        );
        let contact = detect_contact(&self.ball, &self.obstacles, self.width);
        self.life = next_life(self.life, contact);
        let alive = !self.is_dead();
        evict_behind(&mut self.obstacles, self.ball.y, self.trailing);
        let mut spawned = false;
        if alive && should_spawn(self.ball.y, self.frontier) {
            self.frontier = spawn_batch(&mut self.obstacles, self.frontier, BATCH, self.seeking_one_in);
            spawned = true;
        }
        self.tiles.update(self.ball.y, input.view_height);
        if alive {
            if wall_hit {
                self.score.on_wall_bounce();
            }
            self.score.on_tick(self.ball.y);
        } else {
            self.fade = advance_fade(self.fade, dt);
        }
        self.oscillator.advance();
        TickEvents { wall_hit, died: was_alive && !alive, spawned }
    }
}

} // verus!
