//! Draw and sound requests produced from the world state, for a renderer
//! and an audio player to carry out.
use vstd::prelude::*;
use crate::life::Life;
use crate::obstacles::{
    obstacle_state_ok, screen_x, screen_x_exec, visible, Obstacle, ObstacleKind, OBSTACLE_SIZE,
};
use crate::physics::{floor_sqrt, floor_sqrt_exec, Point, PLAYER_SIZE};
use crate::tiles::{SkyTile, TILE_COUNT, OBJECTS_PARALLAX, STARS_PARALLAX};
use crate::units::{COORD_LIMIT, coord_ok, div_toward_zero, state_ok, MAX_VIEW};
use crate::world::{TickEvents, World};

verus! {

/// Full opacity of a request.
pub const ALPHA_FULL: i64 = 1_000_000;

/// Thickness of the wall lines and the altitude marker, and the aim line's
/// at full strength.
pub const LINE_THICKNESS: i64 = 4_000;

/// Left edge and size of the running score.
pub const SCORE_X: i64 = 90_000;

pub const SCORE_SIZE: i64 = 64_000;

/// The score hangs this far above the best altitude when that is in view.
pub const SCORE_LIFT: i64 = 32_000;

/// Left edge and size of the death banner; the final score sits
/// `BANNER_GAP` below it, at `FINAL_SCORE_SIZE`.
pub const BANNER_X: i64 = 16_000;

pub const BANNER_SIZE: i64 = 128_000;

pub const BANNER_GAP: i64 = 64_000;

pub const FINAL_SCORE_SIZE: i64 = 38_000;

/// Opacity of the best-altitude marker when the ball is far below it.
pub const MARKER_ALPHA_MAX: i64 = 400_000;

#[derive(Clone, Copy, Debug, PartialEq, Eq)]
pub enum Texture {
    Sky,
    /// The objects layer, with its texture variant.
    SkyObjects(u8),
    /// The stars layer, with its texture variant.
    Stars(u8),
    Ball,
    NormalObstacle,
    SeekingObstacle,
}

#[derive(Clone, Copy, Debug, PartialEq, Eq)]
pub enum Tint {
    White,
    Blue,
    Black,
    Aim,
}

#[derive(Clone, Copy, Debug, PartialEq, Eq)]
pub enum Label {
    /// The running score.
    Score(i64),
    /// The death banner.
    Died,
    /// The score shown after death.
    FinalScore(i64),
}

/// One draw request, in world sub-pixels; opacity out of `ALPHA_FULL`.
#[derive(Clone, Copy, Debug, PartialEq, Eq)]
pub enum DrawIntent {
    Sprite { texture: Texture, x: i64, y: i64, size: i64, quarter_turns: u8 },
    Line { x1: i64, y1: i64, x2: i64, y2: i64, thickness: i64, tint: Tint, alpha: i64 },
    Rect { x: i64, y: i64, w: i64, h: i64, tint: Tint, alpha: i64 },
    Text { label: Label, x: i64, y: i64, size: i64 },
}

#[derive(Clone, Copy, Debug, PartialEq, Eq)]
pub enum Sound {
    Music,
    WallHit,
}

/// One sound request; volume out of `ALPHA_FULL`.
#[derive(Clone, Copy, Debug, PartialEq, Eq)]
pub struct AudioIntent {
    pub sound: Sound,
    pub looped: bool,
    pub volume: i64,
}

/// Request `k` of a tile: the static sky, then the objects layer, then the
/// stars layer, each shifted up by its share of the ball's displacement.
pub open spec fn tile_intent(t: SkyTile, ball_y: int, width: int, k: int) -> DrawIntent {
    if k == 0 {
        DrawIntent::Sprite { texture: Texture::Sky, x: 0, y: t.y, size: width as i64, quarter_turns: 0 }
    } else if k == 1 {
        DrawIntent::Sprite {
            texture: Texture::SkyObjects(t.objects.variant),
            x: 0,
            y: (t.y - div_toward_zero(ball_y - t.y, OBJECTS_PARALLAX as int)) as i64,
            size: width as i64,
            quarter_turns: t.objects.quarter_turns,
        }
    } else {
        DrawIntent::Sprite {
            texture: Texture::Stars(t.stars.variant),
            x: 0,
            y: (t.y - div_toward_zero(ball_y - t.y, STARS_PARALLAX as int)) as i64,
            size: width as i64,
            quarter_turns: t.stars.quarter_turns,
        }
    }
}

pub open spec fn tile_intents(tiles: Seq<SkyTile>, ball_y: int, width: int) -> Seq<DrawIntent> {
    Seq::new(3 * tiles.len(), |j: int| tile_intent(tiles[j / 3], ball_y, width, j % 3))
}

pub open spec fn obstacle_intent(o: Obstacle, width: int) -> DrawIntent {
    DrawIntent::Sprite {
        texture: match o.kind {
            ObstacleKind::Normal => Texture::NormalObstacle,
            ObstacleKind::Seeking => Texture::SeekingObstacle,
        },
        x: screen_x(o.x as int, width) as i64,
        y: o.y,
        size: (OBSTACLE_SIZE * o.scale) as i64,
        quarter_turns: 0,
    }
}

/// Sprites of the obstacles within one view height of the ball, in order.
pub open spec fn obstacle_intents(obstacles: Seq<Obstacle>, ball_y: int, width: int, view_height: int) -> Seq<DrawIntent> {
    obstacles.filter(|o: Obstacle| visible(o.y as int, ball_y, view_height)).map_values(
        |o: Obstacle| obstacle_intent(o, width),
    )
}

fn tile_sprites(tiles: &Vec<SkyTile>, ball_y: i64, width: i64) -> (r: Vec<DrawIntent>)
    requires
        tiles.len() == TILE_COUNT,
        forall|i: int| 0 <= i < tiles.len() ==> state_ok(#[trigger] tiles@[i].y as int),
        state_ok(ball_y as int),
        0 < width <= MAX_VIEW,
    ensures
        r@ == tile_intents(tiles@, ball_y as int, width as int),
{
    let mut r: Vec<DrawIntent> = Vec::new();
    let mut i: usize = 0;
    while i < tiles.len()
        invariant
            i <= tiles.len() == TILE_COUNT,
            forall|k: int| 0 <= k < tiles.len() ==> state_ok(#[trigger] tiles@[k].y as int),
            state_ok(ball_y as int),
            0 < width <= MAX_VIEW,
            r.len() == 3 * i,
            forall|j: int|
                0 <= j < r.len() ==> #[trigger] r@[j] == tile_intent(tiles@[j / 3], ball_y as int, width as int, j % 3),
        decreases tiles.len() - i,
    {
        let t = tiles[i];
        assert(state_ok(tiles@[i as int].y as int));
        let d: i64 = ball_y - t.y;
        r.push(DrawIntent::Sprite { texture: Texture::Sky, x: 0, y: t.y, size: width, quarter_turns: 0 });
        r.push(
            DrawIntent::Sprite {
                texture: Texture::SkyObjects(t.objects.variant),
                x: 0,
                y: t.y - d / OBJECTS_PARALLAX,
                size: width,
                quarter_turns: t.objects.quarter_turns,
            },
        );
        r.push(
            DrawIntent::Sprite {
                texture: Texture::Stars(t.stars.variant),
                x: 0,
                y: t.y - d / STARS_PARALLAX,
                size: width,
                quarter_turns: t.stars.quarter_turns,
            },
        );
        assert forall|j: int| 0 <= j < r.len() implies #[trigger] r@[j] == tile_intent(
            tiles@[j / 3],
            ball_y as int,
            width as int,
            j % 3,
        ) by {
            if j >= 3 * i {
                assert(j / 3 == i);
            }
        }
        i = i + 1;
    }
    assert(r@ =~= tile_intents(tiles@, ball_y as int, width as int));
    r
}

fn obstacle_sprites(obstacles: &Vec<Obstacle>, ball_y: i64, width: i64, view_height: i64) -> (r: Vec<DrawIntent>)
    requires
        forall|i: int| 0 <= i < obstacles.len() ==> obstacle_state_ok(#[trigger] obstacles@[i]),
        state_ok(ball_y as int),
        0 < width <= MAX_VIEW,
        0 <= view_height <= MAX_VIEW,
    ensures
        r@ == obstacle_intents(obstacles@, ball_y as int, width as int, view_height as int),
{
    let ghost pred = |o: Obstacle| visible(o.y as int, ball_y as int, view_height as int);
    let ghost f = |o: Obstacle| obstacle_intent(o, width as int);
    let mut r: Vec<DrawIntent> = Vec::new();
    let mut i: usize = 0;
    while i < obstacles.len()
        invariant
            i <= obstacles.len(),
            forall|k: int| 0 <= k < obstacles.len() ==> obstacle_state_ok(#[trigger] obstacles@[k]),
            state_ok(ball_y as int),
            0 < width <= MAX_VIEW,
            0 <= view_height <= MAX_VIEW,
            pred == (|o: Obstacle| visible(o.y as int, ball_y as int, view_height as int)),
            f == (|o: Obstacle| obstacle_intent(o, width as int)),
            r@ == obstacles@.take(i as int).filter(pred).map_values(f),
        decreases obstacles.len() - i,
    {
        let o = obstacles[i];
        assert(obstacle_state_ok(obstacles@[i as int]));
        let ghost kept = obstacles@.take(i as int).filter(pred);
        proof {
            assert(obstacles@.take(i + 1) =~= obstacles@.take(i as int).push(o));
            obstacles@.take(i as int).lemma_filter_push(o, pred);
        }
        if ball_y - view_height <= o.y && o.y <= ball_y + view_height {
            let texture = match o.kind {
                ObstacleKind::Normal => Texture::NormalObstacle,
                ObstacleKind::Seeking => Texture::SeekingObstacle,
            };
            let sprite = DrawIntent::Sprite {
                texture,
                x: screen_x_exec(o.x, width),
                y: o.y,
                size: OBSTACLE_SIZE * o.scale as i64,
                quarter_turns: 0,
            };
            r.push(sprite);
            assert(kept.push(o).map_values(f) =~= kept.map_values(f).push(f(o)));
        }
        i = i + 1;
    }
    assert(obstacles@.take(obstacles.len() as int) =~= obstacles@);
    r
}

/// Opacity of the aim line, out of `ALPHA_FULL`: the distance from the
/// ball's corner to the pointer over the playfield width, capped at full.
pub open spec fn aim_strength(dx: int, dy: int, width: int) -> int {
    let s = floor_sqrt(dx * dx + dy * dy) * ALPHA_FULL / width;
    if s > ALPHA_FULL {
        ALPHA_FULL as int
    } else {
        s
    }
}

/// Thickness of the aim line: `LINE_THICKNESS` times the distance from the
/// ball's corner to the pointer over the playfield width, held below the
/// coordinate range.
pub open spec fn aim_thickness(dx: int, dy: int, width: int) -> int {
    let t = LINE_THICKNESS * floor_sqrt(dx * dx + dy * dy) / width;
    if t > COORD_LIMIT {
        COORD_LIMIT as int
    } else {
        t
    }
}

/// Opacity of the best-altitude marker: a tenth of the drop below it, out
/// of `ALPHA_FULL`, between zero and `MARKER_ALPHA_MAX`.
pub open spec fn marker_alpha(drop: int) -> int {
    if drop / 10 < 0 {
        0
    } else if drop / 10 > MARKER_ALPHA_MAX {
        MARKER_ALPHA_MAX as int
    } else {
        drop / 10
    }
}

/// The fixed requests between the tiles and the obstacles: the two walls,
/// the ball and the aim line.
pub open spec fn middle_intents(w: &World, view_height: int, pointer: Point) -> Seq<DrawIntent> {
    let b = w.ball;
    let strength = aim_strength(pointer.x - b.x, pointer.y - b.y, w.width as int);
    let thickness = aim_thickness(pointer.x - b.x, pointer.y - b.y, w.width as int);
    seq![
        DrawIntent::Line { x1: 0, y1: (b.y - view_height) as i64, x2: 0, y2: (b.y + view_height) as i64, thickness: LINE_THICKNESS, tint: Tint::Blue, alpha: ALPHA_FULL },
        DrawIntent::Line { x1: w.width, y1: (b.y - view_height) as i64, x2: w.width, y2: (b.y + view_height) as i64, thickness: LINE_THICKNESS, tint: Tint::Blue, alpha: ALPHA_FULL },
        DrawIntent::Sprite { texture: Texture::Ball, x: b.x, y: b.y, size: PLAYER_SIZE, quarter_turns: 0 },
        DrawIntent::Line { x1: (b.x + PLAYER_SIZE / 2) as i64, y1: (b.y + PLAYER_SIZE / 2) as i64, x2: pointer.x, y2: pointer.y, thickness: thickness as i64, tint: Tint::Aim, alpha: strength as i64 },
    ]
}

/// The requests after the obstacles: the best-altitude marker, the score,
/// and once dead the fading overlay with the final score.
pub open spec fn closing_intents(w: &World, view_height: int) -> Seq<DrawIntent> {
    let b = w.ball;
    let hy = w.score.highest_y as int;
    let score_y = if hy - SCORE_LIFT > b.y - view_height / 2 {
        hy - SCORE_LIFT
    } else {
        b.y - view_height / 2
    };
    let common = seq![
        DrawIntent::Rect { x: 0, y: w.score.highest_y, w: w.width, h: LINE_THICKNESS, tint: Tint::White, alpha: marker_alpha(b.y - hy) as i64 },
        DrawIntent::Text { label: Label::Score((-w.score.score) as i64), x: SCORE_X, y: (score_y + SCORE_SIZE) as i64, size: SCORE_SIZE },
    ];
    if w.life == Life::Dead {
        common + seq![
            DrawIntent::Rect { x: 0, y: (b.y - view_height / 2) as i64, w: w.width, h: view_height as i64, tint: Tint::Black, alpha: w.fade },
            DrawIntent::Text { label: Label::Died, x: BANNER_X, y: b.y, size: BANNER_SIZE },
            DrawIntent::Text { label: Label::FinalScore((-w.score.score) as i64), x: BANNER_X, y: (b.y + BANNER_GAP) as i64, size: FINAL_SCORE_SIZE },
        ]
    } else {
        common
    }
}

/// Everything to draw for one frame, back to front, with the camera centred
/// on the ball.
pub open spec fn frame_spec(w: &World, view_height: int, pointer: Point) -> Seq<DrawIntent> {
    tile_intents(w.tiles.tiles@, w.ball.y as int, w.width as int) + middle_intents(w, view_height, pointer)
        + obstacle_intents(w.obstacles@, w.ball.y as int, w.width as int, view_height)
        + closing_intents(w, view_height)
}

/// The draw requests of one frame; `pointer` is in world sub-pixels.
pub fn frame_intents(w: &World, view_height: i64, pointer: Point) -> (r: Vec<DrawIntent>)
    requires
        w.wf(),
        w.limits_ok(),
        0 <= view_height <= MAX_VIEW,
        coord_ok(pointer.x as int),
        coord_ok(pointer.y as int),
    ensures
        r@ == frame_spec(w, view_height as int, pointer),
{
    let b = w.ball;
    let mut r = tile_sprites(&w.tiles.tiles, b.y, w.width);
    let ghost tiles_part = r@;
    // walls, ball and aim line
    let dx: i64 = pointer.x - b.x;
    let dy: i64 = pointer.y - b.y;
    let wx: i128 = dx as i128;
    let wy: i128 = dy as i128;
    proof {
        let bound: int = 4 * crate::units::COORD_LIMIT;
        assert(0 <= wx * wx <= bound * bound) by (nonlinear_arith)
            requires
                -bound <= wx <= bound,
        ;
        assert(0 <= wy * wy <= bound * bound) by (nonlinear_arith)
            requires
                -bound <= wy <= bound,
        ;
    }
    let dist: u128 = floor_sqrt_exec((wx * wx + wy * wy) as u128);
    assert(dist * (ALPHA_FULL as u128) <= crate::physics::SQRT_RANGE * ALPHA_FULL) by (nonlinear_arith)
        requires
            dist < crate::physics::SQRT_RANGE,
    ;
    let raw: u128 = dist * (ALPHA_FULL as u128) / (w.width as u128);
    let strength: i64 = if raw > ALPHA_FULL as u128 {
        ALPHA_FULL
    } else {
        raw as i64
    };
    assert(dist * (LINE_THICKNESS as u128) <= crate::physics::SQRT_RANGE * LINE_THICKNESS) by (nonlinear_arith)
        requires
            dist < crate::physics::SQRT_RANGE,
    ;
    let raw_thickness: u128 = (LINE_THICKNESS as u128) * dist / (w.width as u128);
    let thickness: i64 = if raw_thickness > COORD_LIMIT as u128 {
        COORD_LIMIT
    } else {
        raw_thickness as i64
    };
    let mut middle: Vec<DrawIntent> = Vec::new();
    middle.push(DrawIntent::Line { x1: 0, y1: b.y - view_height, x2: 0, y2: b.y + view_height, thickness: LINE_THICKNESS, tint: Tint::Blue, alpha: ALPHA_FULL });
    middle.push(DrawIntent::Line { x1: w.width, y1: b.y - view_height, x2: w.width, y2: b.y + view_height, thickness: LINE_THICKNESS, tint: Tint::Blue, alpha: ALPHA_FULL });
    middle.push(DrawIntent::Sprite { texture: Texture::Ball, x: b.x, y: b.y, size: PLAYER_SIZE, quarter_turns: 0 });
    middle.push(DrawIntent::Line { x1: b.x + PLAYER_SIZE / 2, y1: b.y + PLAYER_SIZE / 2, x2: pointer.x, y2: pointer.y, thickness, tint: Tint::Aim, alpha: strength });
    assert(middle@ =~= middle_intents(w, view_height as int, pointer));
    r.append(&mut middle);
    let mut obstacles_part = obstacle_sprites(&w.obstacles, b.y, w.width, view_height);
    r.append(&mut obstacles_part);
    // marker, score and the death overlay
    let hy: i64 = w.score.highest_y;
    let score_y: i64 = if hy - SCORE_LIFT > b.y - view_height / 2 {
        hy - SCORE_LIFT
    } else {
        b.y - view_height / 2
    };
    let drop: i64 = (b.y - hy) / 10;
    let marker: i64 = if drop < 0 {
        0
    } else if drop > MARKER_ALPHA_MAX {
        MARKER_ALPHA_MAX
    } else {
        drop
    };
    let mut closing: Vec<DrawIntent> = Vec::new();
    closing.push(DrawIntent::Rect { x: 0, y: hy, w: w.width, h: LINE_THICKNESS, tint: Tint::White, alpha: marker });
    closing.push(DrawIntent::Text { label: Label::Score(-w.score.score), x: SCORE_X, y: score_y + SCORE_SIZE, size: SCORE_SIZE });
    if w.is_dead() {
        closing.push(DrawIntent::Rect { x: 0, y: b.y - view_height / 2, w: w.width, h: view_height, tint: Tint::Black, alpha: w.fade });
        closing.push(DrawIntent::Text { label: Label::Died, x: BANNER_X, y: b.y, size: BANNER_SIZE });
        closing.push(DrawIntent::Text { label: Label::FinalScore(-w.score.score), x: BANNER_X, y: b.y + BANNER_GAP, size: FINAL_SCORE_SIZE });
    }
    assert(closing@ =~= closing_intents(w, view_height as int));
    r.append(&mut closing);
    r
}

/// The pointer in world sub-pixels, from its position in the viewport: the
/// horizontal position clamped to the playfield, the vertical one taken
/// relative to a camera centred on the ball.
pub fn pointer_in_world(ball_y: i64, view_x: i64, view_y: i64, width: i64, view_height: i64) -> (r: Point)
    requires
        state_ok(ball_y as int),
        -MAX_VIEW <= view_x <= MAX_VIEW,
        -MAX_VIEW <= view_y <= MAX_VIEW,
        0 < width <= MAX_VIEW,
        0 <= view_height <= MAX_VIEW,
    ensures
        r.x == if view_x < 0 {
            0
        } else if view_x > width {
            width
        } else {
            view_x
        },
        r.y == ball_y + view_y - view_height / 2,
        coord_ok(r.x as int),
        coord_ok(r.y as int),
{
    let x: i64 = if view_x < 0 {
        0
    } else if view_x > width {
        width
    } else {
        view_x
    };
    Point { x, y: ball_y + view_y - view_height / 2 }
}

/// The sound to start with the run: the music, looped.
pub fn start_audio() -> (r: AudioIntent)
    ensures
        r == (AudioIntent { sound: Sound::Music, looped: true, volume: 400_000 }),
{
    AudioIntent { sound: Sound::Music, looped: true, volume: 400_000 }
}

/// The sound that a tick asks for: the wall hit, once at full volume, when
/// the ball bounced.
pub fn tick_audio(events: &TickEvents) -> (r: Option<AudioIntent>)
    ensures
        events.wall_hit ==> r == Some(AudioIntent { sound: Sound::WallHit, looped: false, volume: ALPHA_FULL }),
        !events.wall_hit ==> r.is_none(),
{
    if events.wall_hit {
        Some(AudioIntent { sound: Sound::WallHit, looped: false, volume: ALPHA_FULL })
    } else {
        None
    }
}

} // verus!
