use vstd::prelude::*;

verus! {

/// Width and height of the board.
pub const BOARD_SIZE: usize = 8;

/// A fixed-size square grid of cells, stored row by row.
#[derive(Clone, Copy)]
pub struct Grid<T> {
    grid: [[T; BOARD_SIZE]; BOARD_SIZE],
}

/// Whether `(x, y)` names a cell of the board.
pub open spec fn in_bounds(x: int, y: int) -> bool {
    0 <= x < BOARD_SIZE && 0 <= y < BOARD_SIZE
}

impl<T> Grid<T> {
    /// The content of cell `(x, y)`.
    pub closed spec fn at(&self, x: int, y: int) -> T {
        self.grid@[y]@[x]
    }

    pub fn get(&self, x: usize, y: usize) -> (r: &T)
        requires
            in_bounds(x as int, y as int),
        ensures
            *r == self.at(x as int, y as int),
    {
        &self.grid[y][x]
    }

    pub fn get_mut(&mut self, x: usize, y: usize) -> (r: &mut T)
        requires
            in_bounds(x as int, y as int),
        ensures
            *r == old(self).at(x as int, y as int),
            forall|i: int, j: int|
                in_bounds(i, j) ==> #[trigger] final(self).at(i, j) == if i == x && j == y {
                    *final(r)
                } else {
                    old(self).at(i, j)
                },
    {
        &mut self.grid[y][x]
    }

    /// Builds a grid from its rows: `grid[y][x]` is cell `(x, y)`.
    pub fn from(grid: [[T; BOARD_SIZE]; BOARD_SIZE]) -> (r: Self)
        ensures
            forall|x: int, y: int| in_bounds(x, y) ==> #[trigger] r.at(x, y) == grid@[y]@[x],
    {
        Self { grid }
    }
}

/// Cell `(x, y)` of a row-major listing of the board: the `i`-th cell has
/// `x == i % BOARD_SIZE` and `y == i / BOARD_SIZE`.
pub open spec fn cell_of_index(i: int) -> (int, int) {
    (i % BOARD_SIZE as int, i / BOARD_SIZE as int)
}

impl<T: Copy> Grid<T> {
    /// A grid with every cell equal to `value`.
    pub fn splat(value: T) -> (r: Self)
        ensures
            forall|x: int, y: int| in_bounds(x, y) ==> #[trigger] r.at(x, y) == value,
    {
        let row: [T; BOARD_SIZE] = [value; BOARD_SIZE];
        let r = Self { grid: [row; BOARD_SIZE] };
        assert forall|x: int, y: int| in_bounds(x, y) implies #[trigger] r.at(x, y) == value by {
            assert(r.grid@[y] == row);
        }
        r
    }

    /// Every cell with its coordinates, row by row (`y` outer, `x` inner).
    pub fn iter(&self) -> (r: Vec<(usize, usize, T)>)
        ensures
            r@.len() == BOARD_SIZE * BOARD_SIZE,
            forall|i: int|
                0 <= i < r@.len() ==> #[trigger] r@[i] == (
                    cell_of_index(i).0 as usize,
                    cell_of_index(i).1 as usize,
                    self.at(cell_of_index(i).0, cell_of_index(i).1),
                ),
    {
        let mut r: Vec<(usize, usize, T)> = Vec::new();
        let mut y: usize = 0;
        while y < BOARD_SIZE
            invariant
                y <= BOARD_SIZE,
                r@.len() == y * BOARD_SIZE,
                forall|i: int|
                    0 <= i < r@.len() ==> #[trigger] r@[i] == (
                        cell_of_index(i).0 as usize,
                        cell_of_index(i).1 as usize,
                        self.at(cell_of_index(i).0, cell_of_index(i).1),
                    ),
            decreases BOARD_SIZE - y,
        {
            let mut x: usize = 0;
            while x < BOARD_SIZE
                invariant
                    y < BOARD_SIZE,
                    x <= BOARD_SIZE,
                    r@.len() == y * BOARD_SIZE + x,
                    forall|i: int|
                        0 <= i < r@.len() ==> #[trigger] r@[i] == (
                            cell_of_index(i).0 as usize,
                            cell_of_index(i).1 as usize,
                            self.at(cell_of_index(i).0, cell_of_index(i).1),
                        ),
                decreases BOARD_SIZE - x,
            {
                let v = *self.get(x, y);
                proof {
                    let i = (y * BOARD_SIZE + x) as int;
                    assert(cell_of_index(i) == (x as int, y as int)) by (nonlinear_arith)
                        requires
                            i == y * 8 + x,
                            x < 8,
                    ;
                }
                r.push((x, y, v));
                x = x + 1;
            }
            y = y + 1;
        }
        r
    }
}

} // verus!
