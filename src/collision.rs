//! Contact between the ball and the obstacles.
use vstd::prelude::*;
use crate::obstacles::{
    obstacle_ok, screen_x, screen_x_exec, Obstacle, OBSTACLE_SIZE,
};
use crate::physics::{Ball, HITBOX_INSET, PLAYER_SIZE};
use crate::units::{coord_ok, MAX_VIEW};

verus! {

/// An axis-aligned box, in sub-pixels.
#[derive(Clone, Copy, Debug, PartialEq, Eq)]
pub struct Hitbox {
    pub left: i64,
    pub right: i64,
    pub top: i64,
    pub bottom: i64,
}

/// Open overlap on both axes.
pub open spec fn boxes_overlap(a: Hitbox, b: Hitbox) -> bool {
    a.top < b.bottom && a.bottom > b.top && a.right > b.left && a.left < b.right
}

/// The ball's sprite box trimmed by the inset on every side.
pub open spec fn ball_box(b: Ball) -> Hitbox {
    Hitbox {
        left: (b.x + HITBOX_INSET) as i64,
        right: (b.x + PLAYER_SIZE - HITBOX_INSET) as i64,
        top: (b.y + HITBOX_INSET) as i64,
        bottom: (b.y + PLAYER_SIZE - HITBOX_INSET) as i64,
    }
}

/// An obstacle's sprite box at its scale, trimmed by the inset times the
/// scale on every side.
pub open spec fn obstacle_box(o: Obstacle, width: int) -> Hitbox {
    let sx = screen_x(o.x as int, width);
    let s = o.scale as int;
    Hitbox {
        left: (sx + HITBOX_INSET * s) as i64,
        right: (sx + OBSTACLE_SIZE * s - HITBOX_INSET * s) as i64,
        top: (o.y + HITBOX_INSET * s) as i64,
        bottom: (o.y + OBSTACLE_SIZE * s - HITBOX_INSET * s) as i64,
    }
}

/// Obstacles further than this from the ball, vertically, are skipped by
/// the contact test: no obstacle of scale one or two that far away can
/// overlap the ball.
pub const CULL_DISTANCE: i64 = PLAYER_SIZE + 2 * OBSTACLE_SIZE;

/// The ball touches some obstacle.
pub open spec fn in_contact(b: Ball, obstacles: Seq<Obstacle>, width: int) -> bool {
    exists|i: int|
        0 <= i < obstacles.len() && #[trigger] boxes_overlap(ball_box(b), obstacle_box(obstacles[i], width))
}

pub fn overlaps(a: &Hitbox, b: &Hitbox) -> (r: bool)
    ensures
        r == boxes_overlap(*a, *b),
{
    a.top < b.bottom && a.bottom > b.top && a.right > b.left && a.left < b.right
}

pub fn ball_hitbox(b: &Ball) -> (r: Hitbox)
    requires
        coord_ok(b.x as int),
        coord_ok(b.y as int),
    ensures
        r == ball_box(*b),
{
    Hitbox {
        left: b.x + HITBOX_INSET,
        right: b.x + PLAYER_SIZE - HITBOX_INSET,
        top: b.y + HITBOX_INSET,
        bottom: b.y + PLAYER_SIZE - HITBOX_INSET,
    }
}

pub fn obstacle_hitbox(o: &Obstacle, width: i64) -> (r: Hitbox)
    requires
        obstacle_ok(*o),
        0 < width <= MAX_VIEW,
    ensures
        r == obstacle_box(*o, width as int),
{
    let sx: i64 = screen_x_exec(o.x, width);
    let s: i64 = o.scale as i64;
    Hitbox {
        left: sx + HITBOX_INSET * s,
        right: sx + OBSTACLE_SIZE * s - HITBOX_INSET * s,
        top: o.y + HITBOX_INSET * s,
        bottom: o.y + OBSTACLE_SIZE * s - HITBOX_INSET * s,
    }
}

/// Whether the ball touches an obstacle. Only obstacles within
/// `CULL_DISTANCE` of the ball, vertically, are measured; the others cannot
/// touch it.
pub fn detect_contact(b: &Ball, obstacles: &Vec<Obstacle>, width: i64) -> (r: bool)
    requires
        coord_ok(b.x as int),
        coord_ok(b.y as int),
        forall|i: int| 0 <= i < obstacles.len() ==> obstacle_ok(#[trigger] obstacles@[i]),
        0 < width <= MAX_VIEW,
    ensures
        r == in_contact(*b, obstacles@, width as int),
{
    let ball_box_now = ball_hitbox(b);
    let mut i: usize = 0;
    while i < obstacles.len()
        invariant
            i <= obstacles.len(),
            ball_box_now == ball_box(*b),
            coord_ok(b.x as int),
            coord_ok(b.y as int),
            forall|k: int| 0 <= k < obstacles.len() ==> obstacle_ok(#[trigger] obstacles@[k]),
            0 < width <= MAX_VIEW,
            forall|k: int|
                0 <= k < i ==> !#[trigger] boxes_overlap(ball_box(*b), obstacle_box(obstacles@[k], width as int)),
        decreases obstacles.len() - i,
    {
        let o = &obstacles[i];
        assert(obstacle_ok(obstacles@[i as int]));
        if b.y - CULL_DISTANCE <= o.y && o.y <= b.y + CULL_DISTANCE {
            let ob = obstacle_hitbox(o, width);
            if overlaps(&ball_box_now, &ob) {
                assert(boxes_overlap(ball_box(*b), obstacle_box(obstacles@[i as int], width as int)));
                return true;
            }
        }
        i = i + 1;
    }
    false
}

} // verus!
