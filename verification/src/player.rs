//! The observer's place on the grid.

use vstd::prelude::*;
use crate::shared::{steps2cell, steps2cell_spec, PLAYER_START_CELL};

verus! {

/// Grid cell on which the observer stands.
#[derive(Clone, Copy, Debug, PartialEq, Eq, Structural)]
pub struct PlayerCell(pub usize, pub usize);

impl PlayerCell {
    /// The cell on which the observer starts.
    pub fn new() -> (cell: Self)
        ensures
            cell == PlayerCell(PLAYER_START_CELL.0, PLAYER_START_CELL.1),
    {
        PlayerCell(PLAYER_START_CELL.0, PLAYER_START_CELL.1)
    }
}

/// Notes where the observer stands, given as whole cells from the world's origin on
/// each axis, and tells whether that is another cell than before. Only then has the
/// window anything to do.
pub fn change_cell(cell: &mut PlayerCell, steps: (i128, i128)) -> (changed: bool)
    ensures
        (final(cell).0, final(cell).1) == steps2cell_spec((steps.0 as int, steps.1 as int)),
        changed <==> *final(cell) != *old(cell),
{
    let (cell_x, cell_z) = steps2cell(steps);
    if cell_x != cell.0 || cell_z != cell.1 {
        cell.0 = cell_x;
        cell.1 = cell_z;
        true
    } else {
        false
    }
}

} // verus!
