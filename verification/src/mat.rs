//! A fixed-size two-dimensional grid of scores.
//!
//! The grid is indexed by (needle position, haystack position). Reading an
//! out-of-range cell yields `None` rather than failing, which the dynamic
//! program uses at its boundaries; writing is only allowed in range, since
//! every write uses the same index ranges the grid was allocated with.

use vstd::prelude::*;

verus! {

/// A `rows` x `cols` grid of `i128` scores.
pub struct Mat {
    /// The number of rows.
    pub rows: usize,
    /// The number of columns.
    pub cols: usize,
    /// The cells, one inner vector per row.
    pub data: Vec<Vec<i128>>,
}

impl Mat {
    /// Whether the storage really is a `rows` x `cols` grid.
    pub open spec fn wf(&self) -> bool {
        &&& self.data@.len() == self.rows
        &&& forall|i: int| 0 <= i < self.data@.len() ==> (#[trigger] self.data@[i])@.len()
            == self.cols
    }

    /// The number of rows the grid was declared with.
    pub open spec fn spec_rows(&self) -> int {
        self.rows as int
    }

    /// The number of columns the grid was declared with.
    pub open spec fn spec_cols(&self) -> int {
        self.cols as int
    }

    /// The value stored at `(i, j)`, as a mathematical integer.
    pub open spec fn at(&self, i: int, j: int) -> int {
        self.data@[i]@[j] as int
    }

    /// The whole grid as a sequence of rows.
    pub open spec fn grid(&self) -> Seq<Seq<i128>> {
        self.data@.map_values(|row: Vec<i128>| row@)
    }

    /// Allocates a `rows` x `cols` grid, every cell zero.
    pub fn new(rows: usize, cols: usize) -> (r: Mat)
        ensures
            r.wf(),
            r.spec_rows() == rows,
            r.spec_cols() == cols,
            forall|i: int, j: int| 0 <= i < rows && 0 <= j < cols ==> r.at(i, j) == 0,
    {
        let mut data: Vec<Vec<i128>> = Vec::new();
        let mut i: usize = 0;
        while i < rows
            invariant
                i <= rows,
                data@.len() == i,
                forall|k: int| 0 <= k < i ==> (#[trigger] data@[k])@.len() == cols,
                forall|k: int, j: int|
                    0 <= k < i && 0 <= j < cols ==> #[trigger] data@[k]@[j] == 0,
            decreases rows - i,
        {
            let mut row: Vec<i128> = Vec::new();
            let mut j: usize = 0;
            while j < cols
                invariant
                    j <= cols,
                    row@.len() == j,
                    forall|k: int| 0 <= k < j ==> row@[k] == 0,
                decreases cols - j,
            {
                row.push(0);
                j += 1;
            }
            data.push(row);
            i += 1;
        }
        Mat { rows, cols, data }
    }

    /// Reads the cell at `(i, j)`, or `None` if either index is out of range.
    pub fn get(&self, i: usize, j: usize) -> (r: Option<i128>)
        requires
            self.wf(),
        ensures
            i < self.spec_rows() && j < self.spec_cols() ==> r == Some(
                (self.at(i as int, j as int) as i128),
            ),
            !(i < self.spec_rows() && j < self.spec_cols()) ==> r is None,
    {
        if i < self.rows && j < self.cols {
            Some(self.data[i][j])
        } else {
            None
        }
    }

    /// Writes `v` to the cell at `(i, j)`; the indices must be in range.
    pub fn set(&mut self, i: usize, j: usize, v: i128)
        requires
            old(self).wf(),
            i < old(self).spec_rows(),
            j < old(self).spec_cols(),
        ensures
            final(self).wf(),
            final(self).spec_rows() == old(self).spec_rows(),
            final(self).spec_cols() == old(self).spec_cols(),
            final(self).at(i as int, j as int) == v,
            forall|a: int, b: int|
                0 <= a < old(self).spec_rows() && 0 <= b < old(self).spec_cols() && !(a == i && b
                    == j) ==> final(self).at(a, b) == old(self).at(a, b),
    {
        let row = &mut self.data[i];
        row.set(j, v);
    }
}

} // verus!
