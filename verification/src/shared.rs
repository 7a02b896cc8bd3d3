//! Grid constants and the mapping between grid cells and world positions.

use vstd::prelude::*;

verus! {

/// Number of distinct field values; every value of the field is below it.
pub const MAX_ITER: usize = 128;

/// Side length of the grid that the view bounds are laid over.
pub const VALLEY_SIZE: u32 = 8001;

/// Side length of the square window of tiles.
pub const TILES_COUNT: usize = 41;

/// Cell on which the observer starts.
pub const PLAYER_START_CELL: (usize, usize) = (2309, 2983);

/// Edge of one cell, in world units.
pub const CELL_SIZE: i128 = 4;

/// Number of base colours that the palette cycles through.
pub const BASE_COLORS: usize = 9;

/// One entry of the palette: which of the base colours it takes, and how many
/// steps lighter than the base it is.
#[derive(Clone, Copy, Debug, PartialEq, Eq, Structural)]
pub struct Shade {
    pub base: usize,
    pub level: usize,
}

/// Grid cell at the centre of which the window currently sits.
#[derive(Clone, Copy, Debug, PartialEq, Eq, Structural)]
pub struct TilesCenter(pub usize, pub usize);

/// Index of the cell that lies on the world's origin.
pub open spec fn half_valley() -> int {
    VALLEY_SIZE as int / 2
}

/// World position of a cell's centre on one axis.
pub open spec fn cell2axis(index: int) -> int {
    (index - half_valley()) * CELL_SIZE as int
}

/// World position `(x, z)` of a cell's centre.
pub open spec fn cell2xz_spec(cell: (usize, usize)) -> (int, int) {
    (cell2axis(cell.0 as int), cell2axis(cell.1 as int))
}

/// World position `(x, z)` of the centre of `cell`. The cell in the middle of the
/// grid lies on the origin.
pub fn cell2xz(cell: (usize, usize)) -> (pos: (i128, i128))
    ensures
        (pos.0 as int, pos.1 as int) == cell2xz_spec(cell),
{
    let half: i128 = (VALLEY_SIZE / 2) as i128;
    let x: i128 = (cell.0 as i128 - half) * CELL_SIZE;
    let z: i128 = (cell.1 as i128 - half) * CELL_SIZE;
    (x, z)
}

/// Whole number of cells nearest to a world distance. A distance half-way between
/// two of them takes the one further from the origin.
pub open spec fn nearest_step(distance: int) -> int {
    if distance >= 0 {
        (2 * distance + CELL_SIZE) / (2 * CELL_SIZE as int)
    } else {
        -((-2 * distance + CELL_SIZE) / (2 * CELL_SIZE as int))
    }
}

/// An index kept inside the range of `usize`: what lies below becomes 0, what lies
/// above becomes `usize::MAX`.
pub open spec fn clamped(index: int) -> usize {
    if index < 0 {
        0usize
    } else if index > usize::MAX {
        usize::MAX
    } else {
        index as usize
    }
}

/// Cell that lies `steps` cells from the one on the world's origin.
pub open spec fn steps2cell_spec(steps: (int, int)) -> (usize, usize) {
    (clamped(half_valley() + steps.0), clamped(half_valley() + steps.1))
}

/// Cell in which a world position `(x, z)` lies.
pub open spec fn xz2cell_spec(pos: (int, int)) -> (usize, usize) {
    steps2cell_spec((nearest_step(pos.0), nearest_step(pos.1)))
}

/// `nearest_step` is the nearest: the cell centre it names is at most half a cell
/// from the distance given.
pub proof fn lemma_nearest_step(distance: int)
    ensures
        -(CELL_SIZE as int) <= 2 * (distance - nearest_step(distance) * CELL_SIZE) <= CELL_SIZE as int,
{
    let steps = nearest_step(distance);
    if distance >= 0 {
        assert(steps == (2 * distance + 4) / 8);
        assert(8 * steps <= 2 * distance + 4 < 8 * steps + 8);
    } else {
        assert(-steps == (-2 * distance + 4) / 8);
        assert(8 * -steps <= -2 * distance + 4 < 8 * -steps + 8);
    }
    assert(steps * CELL_SIZE == steps * 4);
}

fn clamp_index(index: i128) -> (cell: usize)
    ensures
        cell == clamped(index as int),
{
    if index < 0 {
        0
    } else if index > usize::MAX as i128 {
        usize::MAX
    } else {
        index as usize
    }
}

fn axis_steps(position: i128) -> (steps: i128)
    ensures
        steps == nearest_step(position as int),
{
    if position >= 0 {
        position / CELL_SIZE + (position % CELL_SIZE + CELL_SIZE / 2) / CELL_SIZE
    } else {
        let under: i128 = -(position + 1);
        -(under / CELL_SIZE + (under % CELL_SIZE + CELL_SIZE / 2 + 1) / CELL_SIZE)
    }
}

/// Cell that lies `steps` whole cells from the one on the world's origin, on each
/// axis. Where that is no cell of the grid the nearest one is given: cell 0 before
/// the grid's first cell, the last index that `usize` holds beyond it.
pub fn steps2cell(steps: (i128, i128)) -> (cell: (usize, usize))
    ensures
        cell == steps2cell_spec((steps.0 as int, steps.1 as int)),
{
    let half: i128 = (VALLEY_SIZE / 2) as i128;
    let x: i128 = if steps.0 > i128::MAX - half {
        i128::MAX
    } else {
        half + steps.0
    };
    let z: i128 = if steps.1 > i128::MAX - half {
        i128::MAX
    } else {
        half + steps.1
    };
    (clamp_index(x), clamp_index(z))
}

/// Cell in which the world position `pos`, given as `(x, z)`, lies: the distance on
/// each axis is rounded to the nearest whole number of cells and counted from the
/// cell on the origin. Positions off the grid are taken as `steps2cell` takes them.
pub fn xz2cell(pos: (i128, i128)) -> (cell: (usize, usize))
    ensures
        cell == xz2cell_spec((pos.0 as int, pos.1 as int)),
{
    steps2cell((axis_steps(pos.0), axis_steps(pos.1)))
}

/// A distance of a whole number of cells is that many steps.
pub proof fn lemma_whole_steps(steps: int)
    ensures
        nearest_step(steps * CELL_SIZE as int) == steps,
{
    let distance = steps * 4;
    assert(steps * CELL_SIZE as int == distance);
    if distance >= 0 {
        assert(nearest_step(distance) == (2 * distance + 4) / 8);
    } else {
        assert(nearest_step(distance) == -((-2 * distance + 4) / 8));
    }
}

/// A cell's world position leads back to the cell.
pub proof fn lemma_cell_round_trip(cell: (usize, usize))
    ensures
        xz2cell_spec(cell2xz_spec(cell)) == cell,
{
    lemma_whole_steps(cell.0 as int - half_valley());
    lemma_whole_steps(cell.1 as int - half_valley());
}

/// The palette, one entry for each field value: the entries run through the base
/// colours in turn, and each full turn is one step lighter than the one before.
pub fn get_colorset() -> (palette: Vec<Shade>)
    ensures
        palette@.len() == MAX_ITER,
        forall|i: int|
            0 <= i < MAX_ITER ==> #[trigger] palette@[i] == (Shade {
                base: (i % BASE_COLORS as int) as usize,
                level: (i / BASE_COLORS as int) as usize,
            }),
{
    let mut palette: Vec<Shade> = Vec::new();
    let mut i: usize = 0;
    while i < MAX_ITER
        invariant
            i <= MAX_ITER,
            palette@.len() == i,
            forall|k: int|
                0 <= k < i ==> #[trigger] palette@[k] == (Shade {
                    base: (k % BASE_COLORS as int) as usize,
                    level: (k / BASE_COLORS as int) as usize,
                }),
        decreases MAX_ITER - i,
    {
        palette.push(Shade { base: i % BASE_COLORS, level: i / BASE_COLORS });
        i += 1;
    }
    palette
}

} // verus!
