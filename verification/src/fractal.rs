//! The window's centre: when it moves, where it moves to, and the cache of field
//! values that is rebuilt when it has moved.

use vstd::prelude::*;
use crate::player::PlayerCell;
use crate::shared::{TilesCenter, MAX_ITER, TILES_COUNT};

verus! {

/// Distance between two indices.
pub open spec fn span(a: int, b: int) -> int {
    if a >= b {
        a - b
    } else {
        b - a
    }
}

/// True when the observer is further from the centre, on either axis, than one
/// step of the window can cover.
pub open spec fn teleported(observer: (int, int), center: (int, int), width: int) -> bool {
    span(center.0, observer.0) > width / 2 + 1 || span(center.1, observer.1) > width / 2 + 1
}

/// One axis of the centre after a step: it stays while the observer is at most half
/// a window away, and moves by one full window towards the observer otherwise.
pub open spec fn shift_axis(observer: int, center: int, width: int) -> int {
    if center - observer > width / 2 {
        center - width
    } else if observer - center > width / 2 {
        center + width
    } else {
        center
    }
}

/// An index brought back into the range of `usize` the way wrapping arithmetic does.
pub open spec fn wrapped(index: int) -> int {
    if index < 0 {
        index + usize::MAX + 1
    } else if index > usize::MAX {
        index - usize::MAX - 1
    } else {
        index
    }
}

/// Centre of a window of side `width` after the observer has come to stand on
/// `observer`, the window having been centred on `center`.
pub open spec fn recenter_spec(observer: (usize, usize), center: (usize, usize), width: usize) -> (
    usize,
    usize,
) {
    if teleported(
        (observer.0 as int, observer.1 as int),
        (center.0 as int, center.1 as int),
        width as int,
    ) {
        observer
    } else {
        (
            wrapped(shift_axis(observer.0 as int, center.0 as int, width as int)) as usize,
            wrapped(shift_axis(observer.1 as int, center.1 as int, width as int)) as usize,
        )
    }
}

/// True when a step of the window leaves both axes of the centre inside the grid,
/// so that nothing wraps.
pub open spec fn stays_on_grid(observer: (usize, usize), center: (usize, usize), width: usize) -> bool {
    teleported(
        (observer.0 as int, observer.1 as int),
        (center.0 as int, center.1 as int),
        width as int,
    ) || {
        &&& 0 <= shift_axis(observer.0 as int, center.0 as int, width as int) <= usize::MAX
        &&& 0 <= shift_axis(observer.1 as int, center.1 as int, width as int) <= usize::MAX
    }
}

fn distance(a: usize, b: usize) -> (d: usize)
    ensures
        d == span(a as int, b as int),
{
    if a >= b {
        a - b
    } else {
        b - a
    }
}

fn shift(observer: usize, center: usize, width: usize) -> (moved: usize)
    ensures
        moved == wrapped(shift_axis(observer as int, center as int, width as int)),
{
    let half: usize = width / 2;
    if center > observer && center - observer > half {
        center.wrapping_sub(width)
    } else if observer > center && observer - center > half {
        center.wrapping_add(width)
    } else {
        center
    }
}

/// New centre for a window of side `width`.
///
/// An observer further than `width / 2 + 1` cells from the centre on either axis
/// becomes the centre. Otherwise each axis moves on its own: by `width` towards the
/// observer when the observer is more than `width / 2` cells away on it, and not at
/// all when it is nearer. A step that would leave the range of `usize` wraps.
pub fn recenter(observer: (usize, usize), center: (usize, usize), width: usize) -> (moved: (
    usize,
    usize,
))
    ensures
        moved == recenter_spec(observer, center, width),
        teleported(
            (observer.0 as int, observer.1 as int),
            (center.0 as int, center.1 as int),
            width as int,
        ) ==> moved == observer,
        span(center.0 as int, observer.0 as int) <= width / 2 && span(
            center.1 as int,
            observer.1 as int,
        ) <= width / 2 ==> moved == center,
{
    let half: usize = width / 2;
    if distance(center.0, observer.0) > half + 1 || distance(center.1, observer.1) > half + 1 {
        return observer;
    }
    (shift(observer.0, center.0, width), shift(observer.1, center.1, width))
}

/// New centre of the tile window, of side `TILES_COUNT`: see `recenter`.
pub fn calc_center(player_cell: (usize, usize), center_cell: (usize, usize)) -> (cell: (usize, usize))
    ensures
        cell == recenter_spec(player_cell, center_cell, TILES_COUNT),
        teleported(
            (player_cell.0 as int, player_cell.1 as int),
            (center_cell.0 as int, center_cell.1 as int),
            TILES_COUNT as int,
        ) ==> cell == player_cell,
{
    recenter(player_cell, center_cell, TILES_COUNT)
}

/// After a step that stays on the grid the observer is at most half a window from
/// the centre on both axes.
pub proof fn lemma_observer_in_window(observer: (usize, usize), center: (usize, usize), width: usize)
    requires
        width >= 1,
        stays_on_grid(observer, center, width),
    ensures
        span(recenter_spec(observer, center, width).0 as int, observer.0 as int) <= width / 2,
        span(recenter_spec(observer, center, width).1 as int, observer.1 as int) <= width / 2,
{
}

/// A second step for the same observer changes nothing: the centre that a step
/// that stays on the grid has chosen is the centre it chooses again.
pub proof fn lemma_recenter_idempotent(observer: (usize, usize), center: (usize, usize), width: usize)
    requires
        stays_on_grid(observer, center, width),
    ensures
        recenter_spec(observer, recenter_spec(observer, center, width), width) == recenter_spec(
            observer,
            center,
            width,
        ),
{
}

/// First cell of the window centred on `cell`: half a window before it on each
/// axis, and cell 0 where that would lie before the grid's first cell.
pub open spec fn window_start_spec(cell: (usize, usize)) -> (usize, usize) {
    let half = TILES_COUNT / 2;
    (
        if cell.0 < half {
            0usize
        } else {
            (cell.0 - half) as usize
        },
        if cell.1 < half {
            0usize
        } else {
            (cell.1 - half) as usize
        },
    )
}

/// First cell of the window centred on `cell`. Near the grid's first cells the
/// window starts at cell 0 and is no longer centred.
pub fn window_start(cell: (usize, usize)) -> (start: (usize, usize))
    ensures
        start == window_start_spec(cell),
{
    let half: usize = TILES_COUNT / 2;
    (
        if half > cell.0 {
            0
        } else {
            cell.0 - half
        },
        if half > cell.1 {
            0
        } else {
            cell.1 - half
        },
    )
}

/// True when the cache has to be rebuilt: on the first evaluation, and whenever the
/// centre moves.
pub open spec fn rebuild_due(player_cell: PlayerCell, center_cell: TilesCenter, not_first: bool) -> bool {
    !not_first || recenter_spec(
        (player_cell.0, player_cell.1),
        (center_cell.0, center_cell.1),
        TILES_COUNT,
    ) != (center_cell.0, center_cell.1)
}

/// Centre after an evaluation for an observer on `player_cell`.
pub open spec fn next_center(player_cell: PlayerCell, center_cell: TilesCenter) -> TilesCenter {
    let cell = recenter_spec(
        (player_cell.0, player_cell.1),
        (center_cell.0, center_cell.1),
        TILES_COUNT,
    );
    TilesCenter(cell.0, cell.1)
}

/// One evaluation of the window for an observer on `player_cell`.
///
/// Moves the centre as `calc_center` says and records that an evaluation has taken
/// place. Returns the first cell of the window when the field cache has to be
/// rebuilt, which is the case on the first evaluation and whenever the centre has
/// moved, and `None` when the cache is still good.
pub fn do_fractal(player_cell: &PlayerCell, center_cell: &mut TilesCenter, not_first: &mut bool) -> (start:
    Option<(usize, usize)>)
    ensures
        *final(not_first),
        *final(center_cell) == next_center(*player_cell, *old(center_cell)),
        rebuild_due(*player_cell, *old(center_cell), *old(not_first)) ==> start == Some(
            window_start_spec((final(center_cell).0, final(center_cell).1)),
        ),
        !rebuild_due(*player_cell, *old(center_cell), *old(not_first)) ==> start is None
            && *final(center_cell) == *old(center_cell),
{
    let cell = calc_center((player_cell.0, player_cell.1), (center_cell.0, center_cell.1));
    if cell.0 == center_cell.0 && cell.1 == center_cell.1 && *not_first {
        return None;
    }
    *not_first = true;
    center_cell.0 = cell.0;
    center_cell.1 = cell.1;
    Some(window_start(cell))
}

/// An evaluation repeated for an observer that has not moved asks for no rebuild,
/// provided the first one stayed on the grid.
pub proof fn lemma_repeat_needs_no_rebuild(player_cell: PlayerCell, center_cell: TilesCenter)
    requires
        stays_on_grid((player_cell.0, player_cell.1), (center_cell.0, center_cell.1), TILES_COUNT),
    ensures
        !rebuild_due(player_cell, next_center(player_cell, center_cell), true),
        next_center(player_cell, next_center(player_cell, center_cell)) == next_center(
            player_cell,
            center_cell,
        ),
{
    lemma_recenter_idempotent(
        (player_cell.0, player_cell.1),
        (center_cell.0, center_cell.1),
        TILES_COUNT,
    );
}

/// How the iteration at one point of the plane ended.
#[derive(Clone, Copy, Debug, PartialEq, Eq, Structural)]
pub enum Escape {
    /// The point lies in the main cardioid or in the period-2 bulb; nothing was
    /// iterated.
    Interior,
    /// The orbit left the disc of radius 2 at the iteration given.
    Escaped(usize),
    /// The orbit was still inside after `MAX_ITER` iterations.
    CapReached,
}

impl Escape {
    /// Field value under which an outcome is shown: the iteration at which the
    /// orbit escaped, and 0 both for points of the interior and for orbits that
    /// reached the cap.
    pub open spec fn index_spec(self) -> usize {
        match self {
            Escape::Escaped(iteration) => if iteration < MAX_ITER {
                iteration
            } else {
                0
            },
            _ => 0,
        }
    }

    /// Outcome of an iteration that ran `count` times before it stopped: it stops
    /// when the orbit escapes, and after `MAX_ITER` iterations at the latest.
    pub fn after(count: usize) -> (outcome: Escape)
        ensures
            count < MAX_ITER ==> outcome == Escape::Escaped(count),
            count >= MAX_ITER ==> outcome == Escape::CapReached,
    {
        if count < MAX_ITER {
            Escape::Escaped(count)
        } else {
            Escape::CapReached
        }
    }

    /// The field value of this outcome, always below `MAX_ITER`.
    pub fn index(self) -> (value: usize)
        ensures
            value == self.index_spec(),
            value < MAX_ITER,
    {
        match self {
            Escape::Escaped(iteration) => if iteration < MAX_ITER {
                iteration
            } else {
                0
            },
            _ => 0,
        }
    }
}

/// True of the values of a sweep that the cache accepts: one for each slot of the
/// window, row by row, each of them a field value.
pub open spec fn sweep_ok(values: Seq<usize>) -> bool {
    &&& values.len() == TILES_COUNT * TILES_COUNT
    &&& forall|k: int| 0 <= k < values.len() ==> values[k] < MAX_ITER
}

/// True of a grid with `TILES_COUNT` rows of `TILES_COUNT` values.
pub open spec fn square(grid: Seq<Seq<usize>>) -> bool {
    &&& grid.len() == TILES_COUNT
    &&& forall|i: int| 0 <= i < TILES_COUNT ==> (#[trigger] grid[i]).len() == TILES_COUNT
}

/// The field's values over the window, one for each slot: slot `(i, j)` holds the
/// value of the cell `i` columns and `j` rows after the window's first cell.
pub struct FractallCollors([[usize; TILES_COUNT]; TILES_COUNT]);

impl View for FractallCollors {
    type V = Seq<Seq<usize>>;

    closed spec fn view(&self) -> Seq<Seq<usize>> {
        Seq::new(TILES_COUNT as nat, |i: int| self.0@[i]@)
    }
}

impl FractallCollors {
    #[verifier::type_invariant]
    spec fn bounded(self) -> bool {
        forall|i: int, j: int|
            0 <= i < TILES_COUNT && 0 <= j < TILES_COUNT ==> #[trigger] self.0@[i]@[j] < MAX_ITER
    }

    /// A cache in which every slot holds 0.
    pub fn new() -> (colors: Self)
        ensures
            square(colors@),
            forall|i: int, j: int|
                0 <= i < TILES_COUNT && 0 <= j < TILES_COUNT ==> #[trigger] colors@[i][j] == 0,
    {
        FractallCollors([[0; TILES_COUNT]; TILES_COUNT])
    }

    /// The value in slot `(i, j)`.
    pub fn get(&self, i: usize, j: usize) -> (value: usize)
        requires
            i < TILES_COUNT,
            j < TILES_COUNT,
        ensures
            value == self@[i as int][j as int],
            value < MAX_ITER,
    {
        proof {
            use_type_invariant(self);
        }
        self.0[i][j]
    }

    /// Replaces the whole cache by the values of one sweep over the window, given
    /// row by row: `values[i * TILES_COUNT + j]` is for slot `(i, j)`.
    ///
    /// Returns whether the values were stored. They are stored when there is one
    /// for each slot and each is below `MAX_ITER`; otherwise the cache is left as
    /// it was.
    pub fn rebuild(&mut self, values: &Vec<usize>) -> (stored: bool)
        ensures
            stored <==> sweep_ok(values@),
            stored ==> forall|i: int, j: int|
                0 <= i < TILES_COUNT && 0 <= j < TILES_COUNT ==> #[trigger] final(self)@[i][j]
                    == values@[i * TILES_COUNT + j],
            !stored ==> final(self)@ == old(self)@,
            square(final(self)@),
    {
        if values.len() != TILES_COUNT * TILES_COUNT {
            return false;
        }
        let mut k: usize = 0;
        while k < values.len()
            invariant
                k <= values.len(),
                forall|m: int| 0 <= m < k ==> values[m] < MAX_ITER,
            decreases values.len() - k,
        {
            if values[k] >= MAX_ITER {
                return false;
            }
            k += 1;
        }
        proof {
            use_type_invariant(&*self);
        }
        let mut i: usize = 0;
        while i < TILES_COUNT
            invariant
                i <= TILES_COUNT,
                sweep_ok(values@),
                forall|a: int, b: int|
                    0 <= a < TILES_COUNT && 0 <= b < TILES_COUNT ==> #[trigger] self.0@[a]@[b]
                        < MAX_ITER,
                forall|a: int, b: int|
                    0 <= a < i && 0 <= b < TILES_COUNT ==> #[trigger] self.0@[a]@[b] == values@[a
                        * TILES_COUNT + b],
            decreases TILES_COUNT - i,
        {
            let mut j: usize = 0;
            while j < TILES_COUNT
                invariant
                    i < TILES_COUNT,
                    j <= TILES_COUNT,
                    sweep_ok(values@),
                    forall|a: int, b: int|
                        0 <= a < TILES_COUNT && 0 <= b < TILES_COUNT ==> #[trigger] self.0@[a]@[b]
                            < MAX_ITER,
                    forall|a: int, b: int|
                        0 <= a < i && 0 <= b < TILES_COUNT ==> #[trigger] self.0@[a]@[b]
                            == values@[a * TILES_COUNT + b],
                    forall|b: int|
                        0 <= b < j ==> self.0@[i as int]@[b] == values@[i * TILES_COUNT + b],
                decreases TILES_COUNT - j,
            {
                self.0[i][j] = values[i * TILES_COUNT + j];
                j += 1;
            }
            i += 1;
        }
        true
    }
}

} // verus!
