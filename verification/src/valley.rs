//! The pool of tiles: a fixed square of slots that is laid out once and from then
//! on only recoloured and moved, all slots by the same step.

use vstd::prelude::*;
use crate::fractal::FractallCollors;
use crate::shared::{
    cell2axis,
    cell2xz,
    TilesCenter,
    CELL_SIZE,
    MAX_ITER,
    PLAYER_START_CELL,
    TILES_COUNT,
};

verus! {

/// Place of a tile in the pool: column and row, both below `TILES_COUNT`. A tile
/// keeps it for good.
#[derive(Clone, Copy, Debug, PartialEq, Eq, Structural)]
pub struct Tile(pub usize, pub usize);

/// What one tile currently shows: where it stands in the world and which field
/// value colours and raises it.
#[derive(Clone, Copy, Debug, PartialEq, Eq, Structural)]
pub struct TileSlot {
    pub tile: Tile,
    pub x: i128,
    pub z: i128,
    pub color: usize,
}

/// What a repaint did: the step by which every tile moved, and the field value of
/// the middle tile, on which the observer's resting height depends.
#[derive(Clone, Copy, Debug, PartialEq, Eq, Structural)]
pub struct Repainted {
    pub dx: i128,
    pub dz: i128,
    pub middle: usize,
}

/// World distance, on one axis, of a slot's column or row from the middle one.
pub open spec fn slot_offset(index: int) -> int {
    (index - TILES_COUNT / 2) * CELL_SIZE as int
}

/// Step that carries tiles laid out around `from` to where they lie around `to`.
pub open spec fn scroll_step(from: (usize, usize), to: (usize, usize)) -> (int, int) {
    (
        cell2axis(to.0 as int) - cell2axis(from.0 as int),
        cell2axis(to.1 as int) - cell2axis(from.1 as int),
    )
}

/// The tiles. There are `TILES_COUNT * TILES_COUNT` of them, slot `(i, j)` at index
/// `i * TILES_COUNT + j`, and they stand in a square around the cell `anchor()`.
pub struct TilePool {
    slots: Vec<TileSlot>,
    anchor: Ghost<(usize, usize)>,
}

impl View for TilePool {
    type V = Seq<TileSlot>;

    closed spec fn view(&self) -> Seq<TileSlot> {
        self.slots@
    }
}

impl TilePool {
    /// Cell on whose centre the middle tile stands.
    pub closed spec fn anchor(&self) -> (usize, usize) {
        self.anchor@
    }

    /// The tile in slot `(i, j)`.
    pub open spec fn slot_spec(&self, i: int, j: int) -> TileSlot {
        self@[i * TILES_COUNT + j]
    }

    #[verifier::type_invariant]
    spec fn laid_out(self) -> bool {
        &&& self.slots@.len() == TILES_COUNT * TILES_COUNT
        &&& forall|k: int|
            0 <= k < self.slots@.len() ==> {
                &&& (#[trigger] self.slots@[k]).tile == Tile(
                    (k / TILES_COUNT as int) as usize,
                    (k % TILES_COUNT as int) as usize,
                )
                &&& self.slots@[k].x == cell2axis(self.anchor@.0 as int) + slot_offset(
                    k / TILES_COUNT as int,
                )
                &&& self.slots@[k].z == cell2axis(self.anchor@.1 as int) + slot_offset(
                    k % TILES_COUNT as int,
                )
                &&& self.slots@[k].color < MAX_ITER
            }
    }

    /// Number of tiles: always `TILES_COUNT * TILES_COUNT`.
    pub fn len(&self) -> (n: usize)
        ensures
            n == self@.len(),
            n == TILES_COUNT * TILES_COUNT,
    {
        proof {
            use_type_invariant(self);
        }
        self.slots.len()
    }

    /// The tile in slot `(i, j)`. It carries its own place, and stands where the
    /// square around `anchor()` puts it.
    pub fn slot(&self, i: usize, j: usize) -> (slot: TileSlot)
        requires
            i < TILES_COUNT,
            j < TILES_COUNT,
        ensures
            slot == self.slot_spec(i as int, j as int),
            slot.tile == Tile(i, j),
            slot.x == cell2axis(self.anchor().0 as int) + slot_offset(i as int),
            slot.z == cell2axis(self.anchor().1 as int) + slot_offset(j as int),
            slot.color < MAX_ITER,
    {
        proof {
            use_type_invariant(self);
        }
        self.slots[i * TILES_COUNT + j]
    }
}

/// Lays the tiles out around the cell on which the observer starts, all of them with
/// field value 0, and centres the window on that cell.
pub fn startup() -> (made: (TilePool, TilesCenter))
    ensures
        made.1 == TilesCenter(PLAYER_START_CELL.0, PLAYER_START_CELL.1),
        made.0.anchor() == PLAYER_START_CELL,
        made.0@.len() == TILES_COUNT * TILES_COUNT,
        forall|i: int, j: int|
            0 <= i < TILES_COUNT && 0 <= j < TILES_COUNT ==> #[trigger] made.0.slot_spec(i, j) == (
            TileSlot {
                tile: Tile(i as usize, j as usize),
                x: (cell2axis(PLAYER_START_CELL.0 as int) + slot_offset(i)) as i128,
                z: (cell2axis(PLAYER_START_CELL.1 as int) + slot_offset(j)) as i128,
                color: 0,
            }),
{
    let center = cell2xz(PLAYER_START_CELL);
    let half: i128 = (TILES_COUNT / 2) as i128;
    let mut slots: Vec<TileSlot> = Vec::new();
    let mut k: usize = 0;
    while k < TILES_COUNT * TILES_COUNT
        invariant
            k <= TILES_COUNT * TILES_COUNT,
            slots@.len() == k,
            half == TILES_COUNT / 2,
            center.0 == cell2axis(PLAYER_START_CELL.0 as int),
            center.1 == cell2axis(PLAYER_START_CELL.1 as int),
            forall|m: int|
                0 <= m < k ==> #[trigger] slots@[m] == (TileSlot {
                    tile: Tile((m / TILES_COUNT as int) as usize, (m % TILES_COUNT as int) as usize),
                    x: (center.0 + slot_offset(m / TILES_COUNT as int)) as i128,
                    z: (center.1 + slot_offset(m % TILES_COUNT as int)) as i128,
                    color: 0,
                }),
        decreases TILES_COUNT * TILES_COUNT - k,
    {
        let i: usize = k / TILES_COUNT;
        let j: usize = k % TILES_COUNT;
        slots.push(
            TileSlot {
                tile: Tile(i, j),
                x: center.0 + (i as i128 - half) * CELL_SIZE,
                z: center.1 + (j as i128 - half) * CELL_SIZE,
                color: 0,
            },
        );
        k += 1;
    }
    let pool = TilePool { slots, anchor: Ghost(PLAYER_START_CELL) };
    assert forall|i: int, j: int| 0 <= i < TILES_COUNT && 0 <= j < TILES_COUNT implies #[trigger] pool.slot_spec(
        i,
        j,
    ) == (TileSlot {
        tile: Tile(i as usize, j as usize),
        x: (cell2axis(PLAYER_START_CELL.0 as int) + slot_offset(i)) as i128,
        z: (cell2axis(PLAYER_START_CELL.1 as int) + slot_offset(j)) as i128,
        color: 0,
    }) by {
        let m = i * TILES_COUNT + j;
        assert(m / TILES_COUNT as int == i && m % TILES_COUNT as int == j);
    }
    (pool, TilesCenter(PLAYER_START_CELL.0, PLAYER_START_CELL.1))
}

/// Shows a rebuilt cache on the tiles and moves them to lie around `tc`.
///
/// Every tile takes the field value of its slot, and every tile moves by the same
/// step, the one that carries the middle tile onto the centre of cell `tc`. No tile
/// is made or dropped, and none changes its slot.
pub fn repaint(pool: &mut TilePool, colors: &FractallCollors, tc: &TilesCenter) -> (done: Repainted)
    ensures
        final(pool)@.len() == TILES_COUNT * TILES_COUNT,
        final(pool).anchor() == (tc.0, tc.1),
        (done.dx as int, done.dz as int) == scroll_step(old(pool).anchor(), (tc.0, tc.1)),
        done.dx == cell2axis(tc.0 as int) - old(pool).slot_spec(
            TILES_COUNT as int / 2,
            TILES_COUNT as int / 2,
        ).x,
        done.dz == cell2axis(tc.1 as int) - old(pool).slot_spec(
            TILES_COUNT as int / 2,
            TILES_COUNT as int / 2,
        ).z,
        done.middle == colors@[TILES_COUNT as int / 2][TILES_COUNT as int / 2],
        forall|i: int, j: int|
            0 <= i < TILES_COUNT && 0 <= j < TILES_COUNT ==> {
                &&& (#[trigger] final(pool).slot_spec(i, j)).tile == Tile(i as usize, j as usize)
                &&& final(pool).slot_spec(i, j).x == old(pool).slot_spec(i, j).x + done.dx
                &&& final(pool).slot_spec(i, j).z == old(pool).slot_spec(i, j).z + done.dz
                &&& final(pool).slot_spec(i, j).color == colors@[i][j]
            },
{
    proof {
        use_type_invariant(&*pool);
    }
    let middle: usize = TILES_COUNT / 2;
    let mid = pool.slots[middle * TILES_COUNT + middle];
    let target = cell2xz((tc.0, tc.1));
    let dx: i128 = target.0 - mid.x;
    let dz: i128 = target.1 - mid.z;
    let mut next: Vec<TileSlot> = Vec::new();
    let mut k: usize = 0;
    while k < TILES_COUNT * TILES_COUNT
        invariant
            k <= TILES_COUNT * TILES_COUNT,
            next@.len() == k,
            pool.laid_out(),
            dx == cell2axis(tc.0 as int) - cell2axis(pool.anchor@.0 as int),
            dz == cell2axis(tc.1 as int) - cell2axis(pool.anchor@.1 as int),
            forall|m: int|
                0 <= m < k ==> #[trigger] next@[m] == (TileSlot {
                    tile: pool.slots@[m].tile,
                    x: (pool.slots@[m].x + dx) as i128,
                    z: (pool.slots@[m].z + dz) as i128,
                    color: colors@[m / TILES_COUNT as int][m % TILES_COUNT as int],
                }),
            forall|m: int|
                0 <= m < k ==> {
                    &&& (#[trigger] next@[m]).x == cell2axis(tc.0 as int) + slot_offset(
                        m / TILES_COUNT as int,
                    )
                    &&& next@[m].z == cell2axis(tc.1 as int) + slot_offset(m % TILES_COUNT as int)
                    &&& next@[m].color < MAX_ITER
                },
        decreases TILES_COUNT * TILES_COUNT - k,
    {
        let i: usize = k / TILES_COUNT;
        let j: usize = k % TILES_COUNT;
        let slot = pool.slots[k];
        next.push(
            TileSlot { tile: slot.tile, x: slot.x + dx, z: slot.z + dz, color: colors.get(i, j) },
        );
        k += 1;
    }
    let ghost before = *pool;
    *pool = TilePool { slots: next, anchor: Ghost((tc.0, tc.1)) };
    assert forall|i: int, j: int| 0 <= i < TILES_COUNT && 0 <= j < TILES_COUNT implies {
        &&& (#[trigger] pool.slot_spec(i, j)).tile == Tile(i as usize, j as usize)
        &&& pool.slot_spec(i, j).x == before.slot_spec(i, j).x + dx
        &&& pool.slot_spec(i, j).z == before.slot_spec(i, j).z + dz
        &&& pool.slot_spec(i, j).color == colors@[i][j]
    } by {
        let m = i * TILES_COUNT + j;
        assert(m / TILES_COUNT as int == i && m % TILES_COUNT as int == j);
    }
    Repainted { dx, dz, middle: colors.get(middle, middle) }
}

} // verus!
