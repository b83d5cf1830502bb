//! A rectangular table of numbers.

use vstd::prelude::*;

verus! {

/// A table of `num_rows` rows and `num_cols` columns, stored row by row.
#[derive(Clone, Debug, PartialEq, Eq)]
pub struct Grid {
    num_rows: usize,
    num_cols: usize,
    elems: Vec<usize>,
}

/// Position of the cell (`row`, `col`) in a table of `cols` columns stored
/// row by row.
pub open spec fn cell_index(cols: int, row: int, col: int) -> int {
    row * cols + col
}

/// Cells inside a table of `rows` rows and `cols` columns have positions
/// below `rows * cols`, and different cells have different positions.
proof fn lemma_cell_index(rows: int, cols: int, row: int, col: int)
    requires
        0 <= row < rows,
        0 <= col < cols,
    ensures
        0 <= row * cols <= cell_index(cols, row, col) < rows * cols,
        cell_index(cols, row, col) / cols == row,
        cell_index(cols, row, col) % cols == col,
{
    assert(0 <= row * cols <= row * cols + col < rows * cols && (row * cols + col) / cols == row
        && (row * cols + col) % cols == col) by (nonlinear_arith)
        requires
            0 <= row < rows,
            0 <= col < cols,
    ;
}

impl Grid {
    /// The number of rows and of columns.
    pub closed spec fn dims(&self) -> (usize, usize) {
        (self.num_rows, self.num_cols)
    }

    /// The number in the cell (`row`, `col`).
    pub closed spec fn cell(&self, row: int, col: int) -> usize {
        self.elems@[cell_index(self.num_cols as int, row, col)]
    }

    /// Whether (`row`, `col`) is a cell of this table.
    pub open spec fn has(&self, row: int, col: int) -> bool {
        0 <= row < self.dims().0 && 0 <= col < self.dims().1
    }

    /// The table holds one number for each of its cells.
    pub closed spec fn wf(&self) -> bool {
        self.elems@.len() == self.num_rows * self.num_cols <= usize::MAX
    }

    /// Returns a table of the given size, with every cell holding zero. The
    /// number of cells has to fit into a `usize`.
    pub fn new(num_rows: usize, num_cols: usize) -> (grid: Grid)
        requires
            num_rows * num_cols <= usize::MAX,
        ensures
            grid.wf(),
            grid.dims() == (num_rows, num_cols),
            forall|row: int, col: int| grid.has(row, col) ==> #[trigger] grid.cell(row, col) == 0,
    {
        let count: usize = num_rows * num_cols;
        let mut elems: Vec<usize> = Vec::new();
        let mut i: usize = 0;
        while i < count
            invariant
                i <= count,
                elems@.len() == i,
                forall|k: int| 0 <= k < i ==> elems@[k] == 0,
            decreases count - i,
        {
            elems.push(0);
            i += 1;
        }
        let grid = Grid { num_rows, num_cols, elems };
        proof {
            assert forall|row: int, col: int| grid.has(row, col) implies #[trigger] grid.cell(
                row,
                col,
            ) == 0 by {
                lemma_cell_index(num_rows as int, num_cols as int, row, col);
            }
        }
        grid
    }

    /// The number of rows and of columns.
    pub fn size(&self) -> (size: (usize, usize))
        ensures
            size == self.dims(),
    {
        (self.num_rows, self.num_cols)
    }

    /// Returns the number in the cell (`row`, `col`), or `None` if the table
    /// has no such cell.
    pub fn get(&self, row: usize, col: usize) -> (value: Option<usize>)
        requires
            self.wf(),
        ensures
            value == (if self.has(row as int, col as int) {
                Some(self.cell(row as int, col as int))
            } else {
                None
            }),
    {
        if row < self.num_rows && col < self.num_cols {
            proof {
                lemma_cell_index(
                    self.num_rows as int,
                    self.num_cols as int,
                    row as int,
                    col as int,
                );
            }
            Some(self.elems[row * self.num_cols + col])
        } else {
            None
        }
    }

    /// Puts `val` into the cell (`row`, `col`) and leaves the other cells as
    /// they are. Fails, changing nothing, if the table has no such cell.
    pub fn set(&mut self, row: usize, col: usize, val: usize) -> (result: Result<(), &'static str>)
        requires
            old(self).wf(),
        ensures
            final(self).wf(),
            final(self).dims() == old(self).dims(),
            result is Ok <==> old(self).has(row as int, col as int),
            result is Err ==> *final(self) == *old(self),
            result is Ok ==> final(self).cell(row as int, col as int) == val,
            result is Ok ==> forall|r: int, c: int|
                old(self).has(r, c) && (r != row || c != col) ==> #[trigger] final(self).cell(r, c)
                    == old(self).cell(r, c),
    {
        if row < self.num_rows && col < self.num_cols {
            proof {
                lemma_cell_index(
                    self.num_rows as int,
                    self.num_cols as int,
                    row as int,
                    col as int,
                );
            }
            let index: usize = row * self.num_cols + col;
            self.elems.set(index, val);
            proof {
                assert forall|r: int, c: int|
                    old(self).has(r, c) && (r != row || c != col) implies #[trigger] self.cell(r, c)
                    == old(self).cell(r, c) by {
                    lemma_cell_index(self.num_rows as int, self.num_cols as int, r, c);
                }
            }
            Ok(())
        } else {
            Err("Provided coordinates out of bounds")
        }
    }

    /// Puts zero into every cell.
    pub fn clear(&mut self)
        requires
            old(self).wf(),
        ensures
            final(self).wf(),
            final(self).dims() == old(self).dims(),
            forall|row: int, col: int|
                final(self).has(row, col) ==> #[trigger] final(self).cell(row, col) == 0,
    {
        let mut i: usize = 0;
        while i < self.elems.len()
            invariant
                i <= self.elems@.len(),
                self.elems@.len() == old(self).elems@.len(),
                self.num_rows == old(self).num_rows,
                self.num_cols == old(self).num_cols,
                forall|k: int| 0 <= k < i ==> self.elems@[k] == 0,
            decreases self.elems.len() - i,
        {
            self.elems.set(i, 0);
            i += 1;
        }
        proof {
            assert forall|row: int, col: int| self.has(row, col) implies #[trigger] self.cell(
                row,
                col,
            ) == 0 by {
                lemma_cell_index(self.num_rows as int, self.num_cols as int, row, col);
            }
        }
    }
}

} // verus!
