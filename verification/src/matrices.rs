//! Matrices as rows of cells, and the sums that are taken over them.

use crate::error::ConvError;
use crate::scalar::Scalar;
use std::collections::VecDeque;
use vstd::prelude::*;

verus! {

/// The cells of a matrix that is held as a vector of rows.
pub open spec fn grid<T>(m: &Vec<Vec<T>>) -> Seq<Seq<T>> {
    Seq::new(m@.len(), |r: int| m@[r]@)
}

/// The cells of a matrix that is held as a deque of rows.
pub open spec fn deque_grid<T>(m: &VecDeque<VecDeque<T>>) -> Seq<Seq<T>> {
    Seq::new(m@.len(), |r: int| m@[r]@)
}

/// Both matrices have the same number of rows, and row by row the same
/// number of cells.
pub open spec fn same_shape<T>(a: Seq<Seq<T>>, b: Seq<Seq<T>>) -> bool {
    &&& a.len() == b.len()
    &&& forall|r: int| 0 <= r < a.len() ==> (#[trigger] a[r]).len() == b[r].len()
}

/// The matrix has `rows` rows of `cols` cells each.
pub open spec fn has_dimensions<T>(m: Seq<Seq<T>>, rows: int, cols: int) -> bool {
    &&& m.len() == rows
    &&& forall|r: int| 0 <= r < m.len() ==> (#[trigger] m[r]).len() == cols
}

/// The products of the first `n` pairs of cells, added from left to right,
/// starting from zero.
pub open spec fn row_dot_upto<T: Scalar>(a: Seq<T>, b: Seq<T>, n: nat) -> T
    decreases n,
{
    if n == 0 {
        T::spec_zero()
    } else {
        row_dot_upto(a, b, (n - 1) as nat).spec_plus(a[n - 1].spec_times(b[n - 1]))
    }
}

/// The sum of the products of corresponding cells of two rows.
pub open spec fn row_dot<T: Scalar>(a: Seq<T>, b: Seq<T>) -> T {
    row_dot_upto(a, b, a.len())
}

/// The row sums of the first `n` pairs of rows, added from top to bottom,
/// starting from zero.
pub open spec fn dot_upto<T: Scalar>(a: Seq<Seq<T>>, b: Seq<Seq<T>>, n: nat) -> T
    decreases n,
{
    if n == 0 {
        T::spec_zero()
    } else {
        dot_upto(a, b, (n - 1) as nat).spec_plus(row_dot(a[n - 1], b[n - 1]))
    }
}

/// The sum of the products of corresponding cells of two matrices of one
/// shape: each row is reduced on its own, and the row sums are added up.
pub open spec fn dot<T: Scalar>(a: Seq<Seq<T>>, b: Seq<Seq<T>>) -> T {
    dot_upto(a, b, a.len())
}

/// The terms of a non-empty sequence, added from left to right, starting from
/// the first.
pub open spec fn fold_plus<T: Scalar>(terms: Seq<T>) -> T
    decreases terms.len(),
{
    if terms.len() <= 1 {
        terms[0]
    } else {
        fold_plus(terms.drop_last()).spec_plus(terms.last())
    }
}

/// The matrix with every cell multiplied by `k` from the left.
pub open spec fn scaled<T: Scalar>(m: Seq<Seq<T>>, k: T) -> Seq<Seq<T>> {
    Seq::new(m.len(), |r: int| Seq::new(m[r].len(), |c: int| k.spec_times(m[r][c])))
}

/// Every cell of the matrix is zero.
pub open spec fn all_zero<T: Scalar>(m: Seq<Seq<T>>) -> bool {
    forall|r: int, c: int|
        0 <= r < m.len() && 0 <= c < m[r].len() ==> #[trigger] m[r][c] == T::spec_zero()
}

/// The sum of two matrices of one shape, cell by cell.
pub open spec fn grid_plus<T: Scalar>(a: Seq<Seq<T>>, b: Seq<Seq<T>>) -> Seq<Seq<T>> {
    Seq::new(a.len(), |p: int| Seq::new(a[p].len(), |q: int| a[p][q].spec_plus(b[p][q])))
}

/// The sum of one or more matrices of one shape: each cell is the sum of the
/// cells at its place, added in the order of the matrices, starting from the
/// first.
pub open spec fn sum_maps<T: Scalar>(maps: Seq<Seq<Seq<T>>>) -> Seq<Seq<T>> {
    Seq::new(
        maps[0].len(),
        |p: int|
            Seq::new(
                maps[0][p].len(),
                |q: int| fold_plus(Seq::new(maps.len(), |k: int| maps[k][p][q])),
            ),
    )
}

/// Tells whether two matrices have one shape.
fn shapes_match<T>(m1: &Vec<Vec<T>>, m2: &Vec<Vec<T>>) -> (same: bool)
    ensures
        same == same_shape(grid(m1), grid(m2)),
{
    if m1.len() != m2.len() {
        return false;
    }
    let mut r: usize = 0;
    while r < m1.len()
        invariant
            r <= m1.len(),
            m1.len() == m2.len(),
            forall|k: int| 0 <= k < r ==> (#[trigger] grid(m1)[k]).len() == grid(m2)[k].len(),
        decreases m1.len() - r,
    {
        if m1[r].len() != m2[r].len() {
            assert(grid(m1)[r as int].len() != grid(m2)[r as int].len());
            return false;
        }
        r += 1;
    }
    true
}

/// A copy of a matrix.
pub(crate) fn copy_matrix<T: Copy>(m: &Vec<Vec<T>>) -> (copy: Vec<Vec<T>>)
    ensures
        grid(&copy) == grid(m),
{
    let mut copy: Vec<Vec<T>> = Vec::new();
    let mut p: usize = 0;
    while p < m.len()
        invariant
            p <= m.len(),
            copy@.len() == p,
            forall|k: int| 0 <= k < p ==> (#[trigger] copy@[k])@ == m@[k]@,
        decreases m.len() - p,
    {
        let source = &m[p];
        let mut row: Vec<T> = Vec::new();
        let mut q: usize = 0;
        while q < source.len()
            invariant
                q <= source.len(),
                row@ == source@.subrange(0, q as int),
            decreases source.len() - q,
        {
            row.push(source[q]);
            assert(row@ =~= source@.subrange(0, q + 1));
            q += 1;
        }
        assert(row@ =~= source@);
        copy.push(row);
        p += 1;
    }
    assert(grid(&copy) =~= grid(m));
    copy
}

/// Adds two matrices of one shape cell by cell.
pub(crate) fn sum_matrices<T: Scalar>(acc: &Vec<Vec<T>>, next: &Vec<Vec<T>>) -> (sum: Vec<Vec<T>>)
    requires
        same_shape(grid(acc), grid(next)),
    ensures
        grid(&sum) == grid_plus(grid(acc), grid(next)),
{
    let mut sum: Vec<Vec<T>> = Vec::new();
    let mut p: usize = 0;
    while p < acc.len()
        invariant
            p <= acc.len(),
            same_shape(grid(acc), grid(next)),
            sum@.len() == p,
            forall|k: int|
                0 <= k < p ==> (#[trigger] sum@[k])@ == grid_plus(grid(acc), grid(next))[k],
        decreases acc.len() - p,
    {
        let v1 = &acc[p];
        let v2 = &next[p];
        assert(v1@ == grid(acc)[p as int] && v2@ == grid(next)[p as int]);
        let mut row: Vec<T> = Vec::new();
        let mut q: usize = 0;
        while q < v1.len()
            invariant
                q <= v1.len(),
                v1@.len() == v2@.len(),
                row@.len() == q,
                forall|b: int| 0 <= b < q ==> #[trigger] row@[b] == v1@[b].spec_plus(v2@[b]),
            decreases v1.len() - q,
        {
            row.push(v1[q].plus(v2[q]));
            q += 1;
        }
        assert(row@ =~= grid_plus(grid(acc), grid(next))[p as int]);
        sum.push(row);
        p += 1;
    }
    assert(grid(&sum) =~= grid_plus(grid(acc), grid(next)));
    sum
}

/// The sum of a single matrix is the matrix.
pub proof fn lemma_sum_maps_single<T: Scalar>(maps: Seq<Seq<Seq<T>>>)
    requires
        maps.len() == 1,
    ensures
        sum_maps(maps) == maps[0],
{
    let total = sum_maps(maps);
    assert forall|p: int| 0 <= p < total.len() implies total[p] == maps[0][p] by {
        assert(total[p] =~= maps[0][p]);
    }
    assert(total =~= maps[0]);
}

/// One more matrix adds its cells to the sum of those before it.
pub proof fn lemma_sum_maps_step<T: Scalar>(maps: Seq<Seq<Seq<T>>>, k: int)
    requires
        1 <= k < maps.len(),
        forall|x: int| 0 <= x < maps.len() ==> same_shape(maps[0], #[trigger] maps[x]),
    ensures
        sum_maps(maps.take(k + 1)) == grid_plus(sum_maps(maps.take(k)), maps[k]),
{
    let longer = sum_maps(maps.take(k + 1));
    let shorter = sum_maps(maps.take(k));
    let stepped = grid_plus(shorter, maps[k]);
    assert(same_shape(maps[0], maps[k]));
    assert(longer.len() == stepped.len());
    assert forall|p: int| 0 <= p < longer.len() implies longer[p] == stepped[p] by {
        assert(longer[p].len() == stepped[p].len());
        assert forall|q: int| 0 <= q < longer[p].len() implies longer[p][q] == stepped[p][q] by {
            let terms = Seq::new((k + 1) as nat, |x: int| maps.take(k + 1)[x][p][q]);
            let fewer = Seq::new(k as nat, |x: int| maps.take(k)[x][p][q]);
            assert(terms.drop_last() =~= fewer);
            assert(terms.last() == maps[k][p][q]);
            assert(longer[p][q] == fold_plus(terms));
            assert(shorter[p][q] == fold_plus(fewer));
        }
        assert(longer[p] =~= stepped[p]);
    }
    assert(longer =~= stepped);
}

/// Multiplies two matrices cell by cell and sums the products.
///
/// Matrices of different shapes are refused: no cell is left out and none is
/// made up.
pub fn dot_matrices<T: Scalar>(m1: &Vec<Vec<T>>, m2: &Vec<Vec<T>>) -> (r: Result<T, ConvError>)
    ensures
        same_shape(grid(m1), grid(m2)) ==> r == Ok::<T, ConvError>(dot(grid(m1), grid(m2))),
        !same_shape(grid(m1), grid(m2)) ==> r == Err::<T, ConvError>(
            ConvError::DimensionMismatch,
        ),
{
    if !shapes_match(m1, m2) {
        return Err(ConvError::DimensionMismatch);
    }
    let mut sum_m = T::zero();
    let mut r: usize = 0;
    while r < m1.len()
        invariant
            r <= m1.len(),
            same_shape(grid(m1), grid(m2)),
            sum_m == dot_upto(grid(m1), grid(m2), r as nat),
        decreases m1.len() - r,
    {
        let v1 = &m1[r];
        let v2 = &m2[r];
        assert(v1@ == grid(m1)[r as int] && v2@ == grid(m2)[r as int]);
        let mut sum_v = T::zero();
        let mut c: usize = 0;
        while c < v1.len()
            invariant
                c <= v1.len(),
                v1.len() == v2.len(),
                sum_v == row_dot_upto(v1@, v2@, c as nat),
            decreases v1.len() - c,
        {
            sum_v = sum_v.plus(v1[c].times(v2[c]));
            c += 1;
        }
        sum_m = sum_m.plus(sum_v);
        r += 1;
    }
    Ok(sum_m)
}

} // verus!
