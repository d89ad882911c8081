//! The parallax background: a fixed ring of square tiles recycled upward as
//! the camera climbs.
use vstd::prelude::*;
use crate::random::random_below;
use crate::units::{coord_ok, div_toward_zero, COORD_LIMIT, MAX_VIEW};

verus! {

/// Number of tiles in the ring.
pub const TILE_COUNT: usize = 6;

/// Parallax divisors: the objects layer scrolls at a tenth of the ball's
/// displacement from the tile, the stars layer at an eighth.
pub const OBJECTS_PARALLAX: i64 = 10;

pub const STARS_PARALLAX: i64 = 8;

/// One parallax layer of a tile: its rotation in quarter turns and which of
/// the two textures it shows.
#[derive(Clone, Copy, Debug, PartialEq, Eq)]
pub struct SkyLayer {
    pub quarter_turns: u8,
    pub variant: u8,
}

/// A background tile: the height of its top edge and its two layers.
#[derive(Clone, Copy, Debug, PartialEq, Eq)]
pub struct SkyTile {
    pub y: i64,
    pub stars: SkyLayer,
    pub objects: SkyLayer,
}

/// The ring of tiles. `tiles[rear]` is the rearmost tile (largest `y`);
/// walking the ring forward from it, each tile lies exactly one tile size
/// above the one before, up to the frontmost.
#[derive(Debug)]
pub struct TileRing {
    pub tiles: Vec<SkyTile>,
    pub rear: usize,
    pub size: i64,
}

pub open spec fn layer_ok(l: SkyLayer) -> bool {
    l.quarter_turns < 4 && l.variant < 2
}

/// Index of the tile `j` steps forward (upward) from the rear.
pub open spec fn slot(rear: int, j: int) -> int {
    (rear + j) % (TILE_COUNT as int)
}

impl TileRing {
    pub open spec fn wf(&self) -> bool {
        &&& self.tiles.len() == TILE_COUNT
        &&& self.rear < TILE_COUNT
        &&& 0 < self.size <= MAX_VIEW
        &&& forall|j: int|
            0 < j < TILE_COUNT ==> #[trigger] self.tiles@[slot(self.rear as int, j)].y
                == self.tiles@[slot(self.rear as int, j - 1)].y - self.size
        &&& forall|i: int|
            0 <= i < TILE_COUNT ==> {
                &&& coord_ok(#[trigger] self.tiles@[i].y as int)
                &&& layer_ok(self.tiles@[i].stars)
                &&& layer_ok(self.tiles@[i].objects)
            }
    }

    /// Height of the rearmost tile.
    pub open spec fn rear_y_spec(&self) -> int {
        self.tiles@[self.rear as int].y as int
    }

    /// Height of the frontmost (topmost) tile.
    pub open spec fn front_y_spec(&self) -> int {
        self.tiles@[slot(self.rear as int, TILE_COUNT - 1)].y as int
    }

    /// A ring of tiles `size` high stacked upward from height zero.
    pub fn new(size: i64) -> (r: TileRing)
        requires
            0 < size <= MAX_VIEW,
        ensures
            r.wf(),
            r.size == size,
            r.rear == 0,
            r.tiles@[0].y == 0,
            forall|i: int| 0 < i < TILE_COUNT ==> #[trigger] r.tiles@[i].y == r.tiles@[i - 1].y - size,
    {
        let mut tiles: Vec<SkyTile> = Vec::new();
        let mut y: i64 = 0;
        let mut i: usize = 0;
        while i < TILE_COUNT
            invariant
                i <= TILE_COUNT,
                0 < size <= MAX_VIEW,
                tiles.len() == i,
                -(i as int) * MAX_VIEW <= y <= 0,
                i == 0 ==> y == 0,
                i > 0 ==> y == tiles@[i - 1].y - size,
                i > 0 ==> tiles@[0].y == 0,
                forall|k: int| 0 < k < i ==> #[trigger] tiles@[k].y == tiles@[k - 1].y - size,
                forall|k: int|
                    0 <= k < i ==> {
                        &&& coord_ok(#[trigger] tiles@[k].y as int)
                        &&& layer_ok(tiles@[k].stars)
                        &&& layer_ok(tiles@[k].objects)
                    },
            decreases TILE_COUNT - i,
        {
            tiles.push(SkyTile { y, stars: random_layer(), objects: random_layer() });
            y = y - size;
            i = i + 1;
        }
        let r = TileRing { tiles, rear: 0, size };
        assert forall|j: int| 0 < j < TILE_COUNT implies #[trigger] r.tiles@[slot(0, j)].y
            == r.tiles@[slot(0, j - 1)].y - size by {
            assert(slot(0, j) == j);
            assert(slot(0, j - 1) == j - 1);
        }
        r
    }

    /// Height of the frontmost (topmost) tile.
    pub fn highest_y(&self) -> (r: i64)
        requires
            self.wf(),
        ensures
            r == self.front_y_spec(),
    {
        self.tiles[(self.rear + (TILE_COUNT - 1)) % TILE_COUNT].y
    }

    /// Height of the rearmost tile.
    pub fn lowest_y(&self) -> (r: i64)
        requires
            self.wf(),
        ensures
            r == self.rear_y_spec(),
    {
        self.tiles[self.rear].y
    }

    /// Moves the rearmost tile to one tile above the frontmost, with fresh
    /// layers.
    fn recycle_forward(&mut self)
        requires
            old(self).wf(),
            old(self).front_y_spec() - old(self).size >= -COORD_LIMIT,
        ensures
            final(self).wf(),
            final(self).size == old(self).size,
            final(self).rear_y_spec() == old(self).rear_y_spec() - old(self).size,
            final(self).front_y_spec() == old(self).front_y_spec() - old(self).size,
            final(self).rear == (old(self).rear + 1) % (TILE_COUNT as int),
            forall|i: int| 0 <= i < TILE_COUNT && i != old(self).rear ==> #[trigger] final(self).tiles@[i] == old(self).tiles@[i],
    {
        let ghost before = self.tiles@;
        let ghost rear0 = self.rear as int;
        assert(before[slot(rear0, 1)].y == before[slot(rear0, 0)].y - self.size);
        assert(slot(rear0, 0) == rear0);
        let rear = self.rear;
        let y: i64 = self.highest_y() - self.size;
        self.tiles.set(rear, SkyTile { y, stars: random_layer(), objects: random_layer() });
        self.rear = (rear + 1) % TILE_COUNT;
        assert forall|j: int| 0 < j < TILE_COUNT implies #[trigger] self.tiles@[slot(
            self.rear as int,
            j,
        )].y == self.tiles@[slot(self.rear as int, j - 1)].y - self.size by {
            assert(slot(self.rear as int, j - 1) == slot(rear0, j));
            if j < TILE_COUNT - 1 {
                assert(slot(self.rear as int, j) == slot(rear0, j + 1));
                assert(before[slot(rear0, j + 1)].y == before[slot(rear0, j)].y - self.size);
            } else {
                assert(slot(self.rear as int, j) == rear0);
            }
        }
        assert forall|i: int| 0 <= i < TILE_COUNT implies {
            &&& coord_ok(#[trigger] self.tiles@[i].y as int)
            &&& layer_ok(self.tiles@[i].stars)
            &&& layer_ok(self.tiles@[i].objects)
        } by {
            if i != rear0 {
                assert(self.tiles@[i] == before[i]);
            }
        }
        assert(slot(self.rear as int, 0) == slot(rear0, 1));
        assert(slot(self.rear as int, TILE_COUNT - 1) == rear0);
    }

    /// Recycles tiles forward until the frontmost one reaches the top edge
    /// of a view `view_height` high centred on `camera_y`.
    pub fn update(&mut self, camera_y: i64, view_height: i64)
        requires
            old(self).wf(),
            coord_ok(camera_y as int),
            0 <= view_height <= MAX_VIEW,
            camera_y - view_height / 2 - 2 * MAX_VIEW >= -COORD_LIMIT,
        ensures
            recycled(old(self), final(self), camera_y - view_height / 2),
    {
        let top: i64 = camera_y - view_height / 2;
        let ghost n: nat = 0;
        let ghost start: int = self.rear_y_spec();
        let ghost rear0: int = self.rear as int;
        let ghost moved: bool = false;
        let mut front: i64 = self.highest_y();
        while top < front
            invariant
                front == self.front_y_spec(),
                self.wf(),
                self.size == old(self).size,
                top == camera_y - view_height / 2,
                top - 2 * MAX_VIEW >= -COORD_LIMIT,
                start == old(self).rear_y_spec(),
                rear0 == old(self).rear,
                0 <= rear0 < TILE_COUNT,
                start - self.rear_y_spec() == n * self.size,
                self.rear == (rear0 + n) % (TILE_COUNT as int),
                forall|j: int| n <= j < TILE_COUNT ==> #[trigger] self.tiles@[slot(rear0, j)] == old(self).tiles@[slot(rear0, j)],
                moved ==> top < self.front_y_spec() + self.size,
                moved ==> old(self).front_y_spec() > top,
                !moved ==> self.rear == old(self).rear && self.tiles@ == old(self).tiles@ && n == 0,
            decreases front - top + self.size,
        {
            let ghost prev = self.tiles@;
            let ghost r = self.rear as int;
            self.recycle_forward();
            front = self.highest_y();
            proof {
                let size = self.size as int;
                let m = n;
                n = n + 1;
                moved = true;
                assert(start - self.rear_y_spec() == n * size) by (nonlinear_arith)
                    requires
                        start - (self.rear_y_spec() + size) == m * size,
                        n == m + 1,
                ;
                lemma_slot_step(rear0, m as int);
                assert forall|j: int| n <= j < TILE_COUNT implies #[trigger] self.tiles@[slot(rear0, j)] == old(self).tiles@[slot(rear0, j)] by {
                    assert(slot(rear0, j) != r);
                    assert(self.tiles@[slot(rear0, j)] == prev[slot(rear0, j)]);
                }
            }
        }
        proof {
            let size = self.size as int;
            assert(n * size >= 0) by (nonlinear_arith)
                requires
                    size > 0,
            ;
            vstd::arithmetic::div_mod::lemma_mod_multiples_basic(n as int, size);
            vstd::arithmetic::div_mod::lemma_div_by_multiple(n as int, size);
        }
    }
}

proof fn lemma_slot_step(rear: int, m: int)
    requires
        0 <= rear < TILE_COUNT,
        0 <= m,
    ensures
        (slot(rear, m) + 1) % (TILE_COUNT as int) == slot(rear, m + 1),
        forall|j: int| m < j < TILE_COUNT ==> #[trigger] slot(rear, j) != slot(rear, m),
{
    vstd::arithmetic::div_mod::lemma_add_mod_noop(rear + m, 1, TILE_COUNT as int);
    assert forall|j: int| m < j < TILE_COUNT implies #[trigger] slot(rear, j) != slot(rear, m) by {
        assert(0 <= rear + m < rear + j < 2 * TILE_COUNT);
    }
}

/// `new` is the ring `old` after recycling for a view whose top edge is at
/// `top`: if the frontmost tile was below that edge, rearmost tiles have
/// moved, one at a time, to one tile above the frontmost, until it is at or
/// above the edge by less than one tile; the tiles that did not move keep
/// their heights and layers. Otherwise nothing changed.
pub open spec fn recycled(old: &TileRing, new: &TileRing, top: int) -> bool {
    let moves = (old.rear_y_spec() - new.rear_y_spec()) / (old.size as int);
    &&& new.wf()
    &&& new.size == old.size
    &&& old.front_y_spec() > top ==> {
        &&& new.front_y_spec() <= top
        &&& top < new.front_y_spec() + new.size
    }
    &&& old.front_y_spec() <= top ==> {
        &&& new.rear == old.rear
        &&& new.tiles@ == old.tiles@
    }
    &&& new.rear_y_spec() <= old.rear_y_spec()
    &&& (old.rear_y_spec() - new.rear_y_spec()) % (old.size as int) == 0
    &&& new.rear == (old.rear + moves) % (TILE_COUNT as int)
    &&& forall|j: int|
        moves <= j < TILE_COUNT ==> #[trigger] new.tiles@[slot(old.rear as int, j)] == old.tiles@[slot(
            old.rear as int,
            j,
        )]
}

/// Draws a fresh layer: a random quarter-turn rotation and texture.
fn random_layer() -> (r: SkyLayer)
    ensures
        layer_ok(r),
{
    SkyLayer { quarter_turns: random_below(4) as u8, variant: random_below(2) as u8 }
}

/// The parallax offsets of a tile's two layers, objects then stars: the
/// ball's displacement from the tile's top, divided by each layer's divisor
/// (rounding toward zero).
pub fn parallax_offsets(ball_y: i64, tile_y: i64) -> (r: (i64, i64))
    requires
        coord_ok(ball_y as int),
        coord_ok(tile_y as int),
    ensures
        r.0 == div_toward_zero(ball_y - tile_y, OBJECTS_PARALLAX as int),
        r.1 == div_toward_zero(ball_y - tile_y, STARS_PARALLAX as int),
{
    let d: i64 = ball_y - tile_y;
    (d / OBJECTS_PARALLAX, d / STARS_PARALLAX)
}

/// The ring stays closed: it holds six tiles in distinct slots, and walking
/// them from the rear, each lies exactly one tile size above the one before;
/// so sorted by height their gaps are exactly one tile size.
pub proof fn lemma_ring_closed(ring: &TileRing)
    requires
        ring.wf(),
    ensures
        ring.tiles.len() == TILE_COUNT,
        forall|j: int| 0 <= j < TILE_COUNT ==> 0 <= #[trigger] slot(ring.rear as int, j) < TILE_COUNT,
        forall|j: int, k: int|
            0 <= j < k < TILE_COUNT ==> #[trigger] slot(ring.rear as int, j) != #[trigger] slot(
                ring.rear as int,
                k,
            ),
        forall|j: int|
            0 < j < TILE_COUNT ==> #[trigger] ring.tiles@[slot(ring.rear as int, j)].y
                == ring.tiles@[slot(ring.rear as int, j - 1)].y - ring.size,
{
}

} // verus!
