use vstd::prelude::*;

use crate::geometry::abs_val;

verus! {

/// A board coordinate. Row 0 is White's back rank, column 0 is the A file.
#[derive(Copy, Clone, Debug, PartialEq, Eq, Structural)]
pub struct Point {
    pub col: usize,
    pub row: usize,
}

impl Point {
    /// The square lies on the board.
    pub open spec fn in_range(self) -> bool {
        self.row < 8 && self.col < 8
    }

    /// The square reached by stepping `row` ranks and `col` files from here,
    /// folded back to non-negative coordinates by absolute value.
    pub fn move_position(&self, row: i32, col: i32) -> (r: Point)
        requires
            self.in_range(),
            -8 <= row <= 8,
            -8 <= col <= 8,
        ensures
            r.row == abs_val(self.row + row),
            r.col == abs_val(self.col + col),
    {
        let new_row: i32 = self.row as i32 + row;
        let new_col: i32 = self.col as i32 + col;
        Point {
            col: if new_col >= 0 {
                new_col as usize
            } else {
                (-new_col) as usize
            },
            row: if new_row >= 0 {
                new_row as usize
            } else {
                (-new_row) as usize
            },
        }
    }
}

} // verus!
