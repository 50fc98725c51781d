//! The neighbourhood of a cell: what a kernel sees when it is centred there.

use crate::scalar::Scalar;
use vstd::prelude::*;

verus! {

/// What stands in for the cells of a window that fall outside the input.
#[derive(Clone, Copy, Debug, PartialEq, Eq, Structural)]
pub enum Padding {
    /// Every missing cell is zero.
    Zero,
    /// Every missing cell is one.
    Ones,
    /// Every missing cell repeats the nearest cell of the input.
    Reflective,
}

/// The side of a row on which padding is added.
#[derive(Clone, Copy, Debug, PartialEq, Eq, Structural)]
pub enum HorizontalDirection {
    Front,
    Back,
}

/// The side of a window on which padding rows are added.
#[derive(Clone, Copy, Debug, PartialEq, Eq, Structural)]
pub enum VerticalDirection {
    Top,
    Bottom,
}

/// Cell `c` of a row that is continued without end to the left and to the
/// right. Inside the row it is the row's own cell. Outside, zero padding gives
/// zero and ones padding gives one; reflective padding repeats the row's first
/// cell to the left and its last cell to the right, and gives zero where the
/// row has no cell to repeat.
pub open spec fn padded_row_cell<T: Scalar>(row: Seq<T>, c: int, padding: Padding) -> T {
    if 0 <= c < row.len() {
        row[c]
    } else {
        match padding {
            Padding::Zero => T::spec_zero(),
            Padding::Ones => T::spec_one(),
            Padding::Reflective => if row.len() == 0 {
                T::spec_zero()
            } else if c < 0 {
                row[0]
            } else {
                row[row.len() - 1]
            },
        }
    }
}

/// Cell `(r, c)` of a matrix that is continued without end in all four
/// directions. Above the first row reflective padding repeats the first row,
/// below the last row it repeats the last one, each continued sideways as
/// `padded_row_cell` says.
pub open spec fn padded_cell<T: Scalar>(m: Seq<Seq<T>>, r: int, c: int, padding: Padding) -> T {
    if 0 <= r < m.len() {
        padded_row_cell(m[r], c, padding)
    } else {
        match padding {
            Padding::Zero => T::spec_zero(),
            Padding::Ones => T::spec_one(),
            Padding::Reflective => if m.len() == 0 {
                T::spec_zero()
            } else if r < 0 {
                padded_row_cell(m[0], c, padding)
            } else {
                padded_row_cell(m[m.len() - 1], c, padding)
            },
        }
    }
}

/// Row `r` of the continued matrix, from column `j - col_radius` to column
/// `j + col_radius`.
pub open spec fn window_row<T: Scalar>(
    m: Seq<Seq<T>>,
    r: int,
    j: int,
    col_radius: int,
    padding: Padding,
) -> Seq<T> {
    Seq::new((2 * col_radius + 1) as nat, |b: int| padded_cell(m, r, j - col_radius + b, padding))
}

/// The window centred at `(i, j)`: rows `i - row_radius` to `i + row_radius`
/// and columns `j - col_radius` to `j + col_radius` of the continued matrix.
/// On each side it holds as many padding rows or columns as the radius reaches
/// beyond the matrix there.
pub open spec fn window<T: Scalar>(
    m: Seq<Seq<T>>,
    i: int,
    j: int,
    row_radius: int,
    col_radius: int,
    padding: Padding,
) -> Seq<Seq<T>> {
    Seq::new(
        (2 * row_radius + 1) as nat,
        |a: int| window_row(m, i - row_radius + a, j, col_radius, padding),
    )
}

/// How many of the indices `0, stride, 2 * stride, ...` lie below `len`.
pub open spec fn sampled(len: int, stride: int) -> int {
    if len <= 0 {
        0
    } else {
        (len - 1) / stride + 1
    }
}

} // verus!
