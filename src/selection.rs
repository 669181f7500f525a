use vstd::prelude::*;
use crate::grid::{in_bounds, cell_of_index, Grid};

verus! {

/// A selected occupant: its cell and the cells it may move to.
pub struct Selection {
    pub x: usize,
    pub y: usize,
    pub choice: PossibleChoice,
}

impl Selection {
    /// A selection of cell `(x, y)` with no destination marked yet.
    pub fn new(x: usize, y: usize) -> (r: Self)
        ensures
            r.x == x,
            r.y == y,
            forall|i: int, j: int| in_bounds(i, j) ==> !#[trigger] r.choice.has(i, j),
    {
        Self { x, y, choice: PossibleChoice::new() }
    }
}

/// A mask of the board telling which cells are reachable.
pub struct PossibleChoice {
    grid: Grid<bool>,
}

impl PossibleChoice {
    /// Whether cell `(x, y)` is marked reachable.
    pub closed spec fn has(&self, x: int, y: int) -> bool {
        self.grid.at(x, y)
    }

    /// An empty mask.
    pub fn new() -> (r: Self)
        ensures
            forall|i: int, j: int| in_bounds(i, j) ==> !#[trigger] r.has(i, j),
    {
        Self { grid: Grid::splat(false) }
    }

    /// Marks cell `(x, y)` reachable.
    pub fn add(&mut self, x: i32, y: i32)
        requires
            in_bounds(x as int, y as int),
        ensures
            forall|i: int, j: int|
                in_bounds(i, j) ==> #[trigger] final(self).has(i, j) == (old(self).has(i, j) || (
                i == x && j == y)),
    {
        *self.grid.get_mut(x as usize, y as usize) = true;
    }

    /// Whether cell `(x, y)` is marked reachable.
    pub fn is_available(&self, x: usize, y: usize) -> (r: bool)
        requires
            in_bounds(x as int, y as int),
        ensures
            r == self.has(x as int, y as int),
    {
        *self.grid.get(x, y)
    }

    /// Every cell with its mark, row by row (`y` outer, `x` inner).
    pub fn iter(&self) -> (r: Vec<(usize, usize, bool)>)
        ensures
            r@.len() == 64,
            forall|i: int|
                0 <= i < r@.len() ==> #[trigger] r@[i] == (
                    cell_of_index(i).0 as usize,
                    cell_of_index(i).1 as usize,
                    self.has(cell_of_index(i).0, cell_of_index(i).1),
                ),
    {
        self.grid.iter()
    }
}

} // verus!
