//! A single convolution filter: one kernel, a stride and a padding mode.

use crate::error::ConvError;
use crate::matrices::{deque_grid, dot, dot_upto, grid, has_dimensions, row_dot_upto};
use crate::random::{draw_weight, drawn};
use crate::scalar::Scalar;
pub use crate::window::Padding;
use crate::window::{
    padded_row_cell, sampled, window, window_row, HorizontalDirection, VerticalDirection,
};
use std::collections::VecDeque;
use vstd::prelude::*;

verus! {

/// Strides and kernel dimensions are all positive.
pub open spec fn valid_configuration(kernel_size: (i32, i32), stride: (i32, i32)) -> bool {
    kernel_size.0 > 0 && kernel_size.1 > 0 && stride.0 > 0 && stride.1 > 0
}

/// Every cell of the matrix is a freshly drawn weight.
pub open spec fn all_drawn<T: Scalar>(m: Seq<Seq<T>>) -> bool {
    forall|r: int, c: int| 0 <= r < m.len() && 0 <= c < m[r].len() ==> drawn(#[trigger] m[r][c])
}

/// A kernel that is slid over a matrix, with the stride by which it moves and
/// the padding that it sees beyond the matrix.
pub struct Filter<T: Scalar> {
    kernel_size: (i32, i32),
    stride: (i32, i32),
    padding: Padding,
    weights: Vec<Vec<T>>,
}

/// What a filter is, as plain values.
pub struct FilterView<T> {
    pub kernel_size: (i32, i32),
    pub stride: (i32, i32),
    pub padding: Padding,
    pub weights: Seq<Seq<T>>,
}

impl<T: Scalar> FilterView<T> {
    /// Strides and kernel dimensions are positive, and the weights have the
    /// kernel's dimensions.
    pub open spec fn wf(self) -> bool {
        &&& valid_configuration(self.kernel_size, self.stride)
        &&& has_dimensions(self.weights, self.kernel_size.0 as int, self.kernel_size.1 as int)
    }

    /// How many rows the window reaches above and below its centre.
    pub open spec fn row_radius(self) -> int {
        self.kernel_size.0 as int / 2
    }

    /// How many columns the window reaches to the left and right of its centre.
    pub open spec fn col_radius(self) -> int {
        self.kernel_size.1 as int / 2
    }

    /// The kernel has a centre cell: both its dimensions are odd, so a window
    /// has exactly the kernel's shape.
    pub open spec fn centred(self) -> bool {
        self.kernel_size.0 % 2 == 1 && self.kernel_size.1 % 2 == 1
    }

    /// The window that the kernel sees when centred at `(i, j)`.
    pub open spec fn window(self, m: Seq<Seq<T>>, i: int, j: int) -> Seq<Seq<T>> {
        window(m, i, j, self.row_radius(), self.col_radius(), self.padding)
    }

    /// The constant by which every weighted sum is divided: the sum of the
    /// kernel's two dimensions.
    pub open spec fn normalizer(self) -> u32 {
        (self.kernel_size.0 + self.kernel_size.1) as u32
    }

    /// The filter's response at `(i, j)`: the window there times the kernel,
    /// cell by cell, summed and divided by the normalizer.
    pub open spec fn response(self, m: Seq<Seq<T>>, i: int, j: int) -> T {
        dot(self.window(m, i, j), self.weights).spec_over(self.normalizer())
    }

    /// The feature map of `m`: the responses at the rows `0, s_r, 2 s_r, ...`
    /// and, in each of them, at the columns `0, s_c, 2 s_c, ...`, where
    /// `(s_r, s_c)` is the stride.
    pub open spec fn apply(self, m: Seq<Seq<T>>) -> Seq<Seq<T>> {
        Seq::new(
            sampled(m.len() as int, self.stride.0 as int) as nat,
            |p: int|
                Seq::new(
                    sampled(m[p * self.stride.0].len() as int, self.stride.1 as int) as nat,
                    |q: int| self.response(m, p * self.stride.0, q * self.stride.1),
                ),
        )
    }
}

impl<T: Scalar> View for Filter<T> {
    type V = FilterView<T>;

    closed spec fn view(&self) -> FilterView<T> {
        FilterView {
            kernel_size: self.kernel_size,
            stride: self.stride,
            padding: self.padding,
            weights: grid(&self.weights),
        }
    }
}

/// The last sampled index: `count` multiples of `stride` lie below `len`, and
/// the next one does not.
proof fn lemma_sampled_last(len: int, stride: int, count: int, index: int)
    requires
        stride > 0,
        count >= 0,
        index == count * stride,
        index < len <= index + stride,
    ensures
        sampled(len, stride) == count + 1,
{
    let rest = len - 1 - index;
    vstd::arithmetic::div_mod::lemma_div_multiples_vanish_fancy(count, rest, stride);
    assert(stride * count + rest == len - 1) by (nonlinear_arith)
        requires
            rest == len - 1 - index,
            index == count * stride,
    ;
}

/// A multiple of the stride that lies below `len` is one of the sampled
/// indices.
proof fn lemma_sampled_bound(len: int, stride: int, count: int)
    requires
        stride > 0,
        count >= 0,
        count * stride < len,
    ensures
        count < sampled(len, stride),
{
    let last = (len - 1) / stride;
    vstd::arithmetic::div_mod::lemma_fundamental_div_mod(len - 1, stride);
    assert(count <= last) by (nonlinear_arith)
        requires
            stride > 0,
            count * stride <= len - 1,
            len - 1 == stride * last + (len - 1) % stride,
            0 <= (len - 1) % stride < stride,
    ;
}

/// A copy of a row.
fn copy_row<T: Copy>(row: &VecDeque<T>) -> (copy: VecDeque<T>)
    ensures
        copy@ == row@,
{
    let mut copy: VecDeque<T> = VecDeque::new();
    let mut h: usize = 0;
    while h < row.len()
        invariant
            h <= row.len(),
            copy@ == row@.subrange(0, h as int),
        decreases row.len() - h,
    {
        copy.push_back(row[h]);
        assert(copy@ =~= row@.subrange(0, h + 1));
        h += 1;
    }
    assert(copy@ =~= row@);
    copy
}

impl<T: Scalar> Filter<T> {
    /// Every filter is well-formed.
    #[verifier::type_invariant]
    pub open spec fn well_formed(self) -> bool {
        self@.wf()
    }

    /// A filter with freshly drawn weights, each in `(0, 1]`.
    ///
    /// Fails with `InvalidConfiguration` where a stride or a kernel dimension
    /// is not positive.
    pub fn new(kernel_size: (i32, i32), stride: (i32, i32), padding: Padding) -> (r: Result<
        Filter<T>,
        ConvError,
    >)
        ensures
            match r {
                Ok(filter) => {
                    &&& valid_configuration(kernel_size, stride)
                    &&& filter@.kernel_size == kernel_size
                    &&& filter@.stride == stride
                    &&& filter@.padding == padding
                    &&& filter@.wf()
                    &&& all_drawn(filter@.weights)
                },
                Err(e) => !valid_configuration(kernel_size, stride) && e
                    == ConvError::InvalidConfiguration,
            },
    {
        if kernel_size.0 <= 0 || kernel_size.1 <= 0 || stride.0 <= 0 || stride.1 <= 0 {
            return Err(ConvError::InvalidConfiguration);
        }
        let weights = Filter::<T>::initialize_weights(kernel_size);
        Ok(Filter { weights, kernel_size, stride, padding })
    }

    /// A filter with the given weights.
    ///
    /// Fails with `InvalidConfiguration` where a stride or a kernel dimension
    /// is not positive, and else with `DimensionMismatch` where the weights do
    /// not have the kernel's dimensions.
    pub fn with_weights(
        kernel_size: (i32, i32),
        stride: (i32, i32),
        padding: Padding,
        weights: Vec<Vec<T>>,
    ) -> (r: Result<Filter<T>, ConvError>)
        ensures
            match r {
                Ok(filter) => {
                    &&& valid_configuration(kernel_size, stride)
                    &&& has_dimensions(
                        grid(&weights),
                        kernel_size.0 as int,
                        kernel_size.1 as int,
                    )
                    &&& filter@ == (FilterView {
                        kernel_size,
                        stride,
                        padding,
                        weights: grid(&weights),
                    })
                },
                Err(e) => if !valid_configuration(kernel_size, stride) {
                    e == ConvError::InvalidConfiguration
                } else {
                    &&& e == ConvError::DimensionMismatch
                    &&& !has_dimensions(
                        grid(&weights),
                        kernel_size.0 as int,
                        kernel_size.1 as int,
                    )
                },
            },
    {
        if kernel_size.0 <= 0 || kernel_size.1 <= 0 || stride.0 <= 0 || stride.1 <= 0 {
            return Err(ConvError::InvalidConfiguration);
        }
        if weights.len() != kernel_size.0 as usize {
            return Err(ConvError::DimensionMismatch);
        }
        let mut r: usize = 0;
        while r < weights.len()
            invariant
                r <= weights.len(),
                valid_configuration(kernel_size, stride),
                forall|k: int| 0 <= k < r ==> (#[trigger] grid(&weights)[k]).len() == kernel_size.1,
            decreases weights.len() - r,
        {
            if weights[r].len() != kernel_size.1 as usize {
                assert(grid(&weights)[r as int].len() != kernel_size.1);
                return Err(ConvError::DimensionMismatch);
            }
            r += 1;
        }
        Ok(Filter { weights, kernel_size, stride, padding })
    }

    /// Draws the weights of a kernel: as many rows as the first dimension
    /// says, each of as many cells as the second says, and none where a
    /// dimension is not positive.
    fn initialize_weights(kernel_size: (i32, i32)) -> (weights: Vec<Vec<T>>)
        ensures
            has_dimensions(
                grid(&weights),
                if kernel_size.0 > 0 {
                    kernel_size.0 as int
                } else {
                    0
                },
                if kernel_size.1 > 0 {
                    kernel_size.1 as int
                } else {
                    0
                },
            ),
            all_drawn(grid(&weights)),
    {
        let mut weights: Vec<Vec<T>> = Vec::new();
        let mut r: i32 = 0;
        while r < kernel_size.0
            invariant
                0 <= r,
                kernel_size.0 > 0 ==> r <= kernel_size.0,
                kernel_size.0 <= 0 ==> r == 0,
                weights@.len() == r,
                forall|k: int|
                    0 <= k < weights@.len() ==> (#[trigger] weights@[k])@.len() == (if kernel_size.1
                        > 0 {
                        kernel_size.1 as int
                    } else {
                        0
                    }),
                forall|k: int, c: int|
                    0 <= k < weights@.len() && 0 <= c < weights@[k]@.len() ==> drawn(
                        #[trigger] weights@[k]@[c],
                    ),
            decreases kernel_size.0 - r,
        {
            let mut row: Vec<T> = Vec::new();
            let mut c: i32 = 0;
            while c < kernel_size.1
                invariant
                    0 <= c,
                    kernel_size.1 > 0 ==> c <= kernel_size.1,
                    kernel_size.1 <= 0 ==> c == 0,
                    row@.len() == c,
                    forall|b: int| 0 <= b < row@.len() ==> drawn(#[trigger] row@[b]),
                decreases kernel_size.1 - c,
            {
                row.push(draw_weight());
                c += 1;
            }
            weights.push(row);
            r += 1;
        }
        assert forall|k: int| 0 <= k < grid(&weights).len() implies (#[trigger] grid(
            &weights,
        )[k]).len() == (if kernel_size.1 > 0 {
            kernel_size.1 as int
        } else {
            0
        }) by {
            assert(grid(&weights)[k] == weights@[k]@);
        }
        weights
    }

    /// The kernel's dimensions: rows, then columns.
    pub fn kernel_size(&self) -> (size: (i32, i32))
        ensures
            size == self@.kernel_size,
    {
        self.kernel_size
    }

    /// The steps between sampled rows and between sampled columns.
    pub fn stride(&self) -> (stride: (i32, i32))
        ensures
            stride == self@.stride,
    {
        self.stride
    }

    /// The padding mode.
    pub fn padding(&self) -> (padding: Padding)
        ensures
            padding == self@.padding,
    {
        self.padding
    }

    /// The kernel's weights, row by row.
    pub fn weights(&self) -> (weights: &Vec<Vec<T>>)
        ensures
            grid(weights) == self@.weights,
    {
        &self.weights
    }

    /// Adds `m_amount` copies of `row` above or below the rows of a window.
    fn add_vertical_padding(
        &self,
        matrix_slice: &mut VecDeque<VecDeque<T>>,
        padding_direction: VerticalDirection,
        m_amount: usize,
        row: &VecDeque<T>,
    )
        ensures
            padding_direction == VerticalDirection::Bottom ==> deque_grid(final(matrix_slice))
                == deque_grid(old(matrix_slice)) + Seq::new(m_amount as nat, |a: int| row@),
            padding_direction == VerticalDirection::Top ==> deque_grid(final(matrix_slice))
                == Seq::new(m_amount as nat, |a: int| row@) + deque_grid(old(matrix_slice)),
    {
        let mut done: usize = 0;
        match padding_direction {
            VerticalDirection::Bottom => {
                while done < m_amount
                    invariant
                        done <= m_amount,
                        deque_grid(matrix_slice) == deque_grid(old(matrix_slice)) + Seq::new(
                            done as nat,
                            |a: int| row@,
                        ),
                    decreases m_amount - done,
                {
                    let ghost before = deque_grid(matrix_slice);
                    let vector = copy_row(row);
                    matrix_slice.push_back(vector);
                    assert(deque_grid(matrix_slice) =~= before.push(row@));
                    assert(deque_grid(matrix_slice) =~= deque_grid(old(matrix_slice)) + Seq::new(
                        (done + 1) as nat,
                        |a: int| row@,
                    ));
                    done += 1;
                }
            },
            VerticalDirection::Top => {
                while done < m_amount
                    invariant
                        done <= m_amount,
                        deque_grid(matrix_slice) == Seq::new(done as nat, |a: int| row@)
                            + deque_grid(old(matrix_slice)),
                    decreases m_amount - done,
                {
                    let ghost before = deque_grid(matrix_slice);
                    let vector = copy_row(row);
                    matrix_slice.push_front(vector);
                    assert(deque_grid(matrix_slice) =~= seq![row@] + before);
                    assert(deque_grid(matrix_slice) =~= Seq::new((done + 1) as nat, |a: int| row@)
                        + deque_grid(old(matrix_slice)));
                    done += 1;
                }
            },
        }
    }

    /// Adds `amount` copies of `fill` before or behind the cells of a row.
    fn add_horizontal_padding(
        &self,
        vector_slice: &mut VecDeque<T>,
        padding_direction: HorizontalDirection,
        amount: usize,
        fill: T,
    )
        ensures
            padding_direction == HorizontalDirection::Back ==> final(vector_slice)@ == old(
                vector_slice,
            )@ + Seq::new(amount as nat, |b: int| fill),
            padding_direction == HorizontalDirection::Front ==> final(vector_slice)@ == Seq::new(
                amount as nat,
                |b: int| fill,
            ) + old(vector_slice)@,
    {
        let mut done: usize = 0;
        match padding_direction {
            HorizontalDirection::Back => {
                while done < amount
                    invariant
                        done <= amount,
                        vector_slice@ == old(vector_slice)@ + Seq::new(done as nat, |b: int| fill),
                    decreases amount - done,
                {
                    vector_slice.push_back(fill);
                    assert(vector_slice@ =~= old(vector_slice)@ + Seq::new(
                        (done + 1) as nat,
                        |b: int| fill,
                    ));
                    done += 1;
                }
            },
            HorizontalDirection::Front => {
                while done < amount
                    invariant
                        done <= amount,
                        vector_slice@ == Seq::new(done as nat, |b: int| fill) + old(vector_slice)@,
                    decreases amount - done,
                {
                    vector_slice.push_front(fill);
                    assert(vector_slice@ =~= Seq::new((done + 1) as nat, |b: int| fill) + old(
                        vector_slice,
                    )@);
                    done += 1;
                }
            },
        }
    }

    /// The cell that continues `row` beyond its first or beyond its last cell.
    fn edge_fill(&self, row: &Vec<T>, direction: HorizontalDirection) -> (fill: T)
        ensures
            direction == HorizontalDirection::Front ==> forall|c: int|
                c < 0 ==> fill == #[trigger] padded_row_cell(row@, c, self@.padding),
            direction == HorizontalDirection::Back ==> forall|c: int|
                c >= row@.len() ==> fill == #[trigger] padded_row_cell(row@, c, self@.padding),
    {
        match self.padding {
            Padding::Zero => T::zero(),
            Padding::Ones => T::one(),
            Padding::Reflective => {
                if row.len() == 0 {
                    T::zero()
                } else {
                    match direction {
                        HorizontalDirection::Front => row[0],
                        HorizontalDirection::Back => row[row.len() - 1],
                    }
                }
            },
        }
    }

    /// The row that continues the rows of a window above its first or below
    /// its last row.
    fn padding_row(
        &self,
        matrix_slice: &VecDeque<VecDeque<T>>,
        direction: VerticalDirection,
        width: usize,
    ) -> (row: VecDeque<T>)
        requires
            matrix_slice@.len() > 0,
        ensures
            self@.padding == Padding::Zero ==> row@ == Seq::new(
                width as nat,
                |b: int| T::spec_zero(),
            ),
            self@.padding == Padding::Ones ==> row@ == Seq::new(
                width as nat,
                |b: int| T::spec_one(),
            ),
            self@.padding == Padding::Reflective && direction == VerticalDirection::Top ==> row@
                == matrix_slice@[0]@,
            self@.padding == Padding::Reflective && direction == VerticalDirection::Bottom ==> row@
                == matrix_slice@[matrix_slice@.len() - 1]@,
    {
        match self.padding {
            Padding::Zero => {
                let mut row: VecDeque<T> = VecDeque::new();
                self.add_horizontal_padding(&mut row, HorizontalDirection::Back, width, T::zero());
                assert(row@ =~= Seq::new(width as nat, |b: int| T::spec_zero()));
                row
            },
            Padding::Ones => {
                let mut row: VecDeque<T> = VecDeque::new();
                self.add_horizontal_padding(&mut row, HorizontalDirection::Back, width, T::one());
                assert(row@ =~= Seq::new(width as nat, |b: int| T::spec_one()));
                row
            },
            Padding::Reflective => {
                match direction {
                    VerticalDirection::Top => copy_row(&matrix_slice[0]),
                    VerticalDirection::Bottom => copy_row(&matrix_slice[matrix_slice.len() - 1]),
                }
            },
        }
    }

    /// Cuts the window centred at row `m_i`, column `v_i` out of `matrix`.
    ///
    /// The window reaches half the kernel's height above and below the centre
    /// and half its width to both sides (the halves rounded down); where it
    /// reaches beyond the matrix, it is padded as the filter's padding says.
    pub fn matrix_slice(&self, matrix: &Vec<Vec<T>>, m_i: usize, v_i: usize) -> (slice: VecDeque<
        VecDeque<T>,
    >)
        requires
            m_i < matrix.len(),
            v_i < matrix[m_i as int].len(),
        ensures
            deque_grid(&slice) == self@.window(grid(matrix), m_i as int, v_i as int),
    {
        proof {
            use_type_invariant(self);
        }
        let row_radius: usize = (self.kernel_size.0 / 2) as usize;
        let col_radius: usize = (self.kernel_size.1 / 2) as usize;
        let height: usize = 2 * row_radius + 1;
        let width: usize = 2 * col_radius + 1;
        let ghost m = grid(matrix);
        let ghost pad = self.padding;
        let ghost j = v_i as int;
        let ghost cr = col_radius as int;
        let vertical_min: usize = if m_i >= row_radius {
            m_i - row_radius
        } else {
            0
        };
        let vertical_max: usize = if row_radius < matrix.len() - m_i {
            m_i + row_radius
        } else {
            matrix.len() - 1
        };
        let mut matrix_slice: VecDeque<VecDeque<T>> = VecDeque::new();
        let mut k: usize = vertical_min;
        while k <= vertical_max
            invariant
                vertical_min <= k <= vertical_max + 1,
                vertical_max < matrix.len(),
                width == 2 * col_radius + 1,
                m == grid(matrix),
                pad == self@.padding,
                j == v_i,
                cr == col_radius,
                deque_grid(&matrix_slice) == Seq::new(
                    (k - vertical_min) as nat,
                    |a: int| window_row(m, vertical_min + a, j, cr, pad),
                ),
            decreases vertical_max + 1 - k,
        {
            let vector = &matrix[k];
            let horizontal_min: usize = if v_i >= col_radius {
                v_i - col_radius
            } else {
                0
            };
            let horizontal_end: usize = if v_i < vector.len() && col_radius < vector.len() - v_i {
                v_i + col_radius + 1
            } else {
                vector.len()
            };
            let mut vector_slice: VecDeque<T> = VecDeque::new();
            let mut h: usize = horizontal_min;
            while h < horizontal_end
                invariant
                    horizontal_end <= vector.len(),
                    horizontal_min <= h,
                    horizontal_min < horizontal_end ==> h <= horizontal_end,
                    horizontal_end <= horizontal_min ==> h == horizontal_min,
                    vector_slice@.len() == h - horizontal_min,
                    forall|b: int|
                        0 <= b < vector_slice@.len() ==> vector_slice@[b] == vector@[horizontal_min
                            + b],
                decreases horizontal_end - h,
            {
                vector_slice.push_back(vector[h]);
                h += 1;
            }
            let ghost copied = vector_slice@;
            assert(horizontal_end <= v_i + col_radius + 1);
            assert(copied.len() <= v_i + col_radius + 1 - horizontal_min);
            let ghost underflow: int = if v_i < col_radius {
                col_radius - v_i
            } else {
                0
            };
            if v_i < col_radius {
                let fill = self.edge_fill(vector, HorizontalDirection::Front);
                self.add_horizontal_padding(
                    &mut vector_slice,
                    HorizontalDirection::Front,
                    col_radius - v_i,
                    fill,
                );
            }
            let ghost fronted = vector_slice@;
            assert(fronted.len() == underflow + copied.len());
            let overflow: usize = width - vector_slice.len();
            if overflow > 0 {
                let fill = self.edge_fill(vector, HorizontalDirection::Back);
                self.add_horizontal_padding(
                    &mut vector_slice,
                    HorizontalDirection::Back,
                    overflow,
                    fill,
                );
            }
            proof {
                let target = window_row(m, k as int, j, cr, pad);
                assert(m[k as int] == vector@);
                assert(vector_slice@.len() == target.len());
                assert forall|b: int| 0 <= b < target.len() implies vector_slice@[b]
                    == target[b] by {
                    let c = j - cr + b;
                    assert(target[b] == padded_row_cell(vector@, c, pad));
                    if b < underflow {
                        assert(c < 0);
                    } else if b < fronted.len() {
                        assert(fronted[b] == copied[b - underflow]);
                        assert(c == horizontal_min + (b - underflow));
                    } else {
                        assert(c >= vector@.len());
                    }
                }
                assert(vector_slice@ =~= target);
            }
            let ghost before = deque_grid(&matrix_slice);
            matrix_slice.push_back(vector_slice);
            assert(deque_grid(&matrix_slice) =~= before.push(window_row(m, k as int, j, cr, pad)));
            k += 1;
        }
        let ghost inner = deque_grid(&matrix_slice);
        assert(inner.len() == matrix_slice@.len());
        assert(inner.len() == vertical_max + 1 - vertical_min);
        let ghost i = m_i as int;
        let ghost rr = row_radius as int;
        let ghost top: int = if m_i < row_radius {
            row_radius - m_i
        } else {
            0
        };
        if m_i < row_radius {
            let row = self.padding_row(&matrix_slice, VerticalDirection::Top, width);
            proof {
                assert(inner[0] == window_row(m, 0, j, cr, pad));
                assert forall|r: int| r < 0 implies row@ == #[trigger] window_row(
                    m,
                    r,
                    j,
                    cr,
                    pad,
                ) by {
                    assert(row@ =~= window_row(m, r, j, cr, pad));
                }
            }
            self.add_vertical_padding(
                &mut matrix_slice,
                VerticalDirection::Top,
                row_radius - m_i,
                &row,
            );
        }
        let ghost topped = deque_grid(&matrix_slice);
        assert(topped.len() == matrix_slice@.len());
        assert(topped.len() == top + inner.len());
        let overflow: usize = height - matrix_slice.len();
        if overflow > 0 {
            let row = self.padding_row(&matrix_slice, VerticalDirection::Bottom, width);
            proof {
                assert(topped[topped.len() - 1] == window_row(m, m.len() - 1, j, cr, pad));
                assert forall|r: int| r >= m.len() implies row@ == #[trigger] window_row(
                    m,
                    r,
                    j,
                    cr,
                    pad,
                ) by {
                    assert(row@ =~= window_row(m, r, j, cr, pad));
                }
            }
            self.add_vertical_padding(
                &mut matrix_slice,
                VerticalDirection::Bottom,
                overflow,
                &row,
            );
        }
        proof {
            let target = window(m, i, j, rr, cr, pad);
            let got = deque_grid(&matrix_slice);
            assert(got.len() == target.len());
            assert forall|a: int| 0 <= a < target.len() implies got[a] == target[a] by {
                if a < top {
                } else if a < topped.len() {
                    assert(topped[a] == inner[a - top]);
                } else {
                }
            }
            assert(got =~= target);
        }
        matrix_slice
    }

    /// The response of the filter at row `m_i`, column `v_i` of `matrix`: the
    /// window there times the kernel, cell by cell, summed up and divided by
    /// the sum of the kernel's two dimensions.
    fn compute_convolution(&self, matrix: &Vec<Vec<T>>, m_i: usize, v_i: usize) -> (response: T)
        requires
            m_i < matrix.len(),
            v_i < matrix[m_i as int].len(),
            self@.centred(),
        ensures
            response == self@.response(grid(matrix), m_i as int, v_i as int),
    {
        proof {
            use_type_invariant(self);
        }
        let weights_len: u32 = self.kernel_size.0 as u32 + self.kernel_size.1 as u32;
        let matrix_slice = self.matrix_slice(matrix, m_i, v_i);
        let ghost cells = deque_grid(&matrix_slice);
        let ghost kernel = grid(&self.weights);
        assert(cells.len() == matrix_slice@.len());
        let mut sum_m = T::zero();
        let mut r: usize = 0;
        while r < matrix_slice.len()
            invariant
                r <= matrix_slice.len(),
                matrix_slice@.len() == self.weights@.len(),
                cells == deque_grid(&matrix_slice),
                kernel == grid(&self.weights),
                forall|a: int| 0 <= a < cells.len() ==> (#[trigger] cells[a]).len() == kernel[a].len(),
                sum_m == dot_upto(cells, kernel, r as nat),
            decreases matrix_slice.len() - r,
        {
            let v1 = &matrix_slice[r];
            let v2 = &self.weights[r];
            assert(v1@ == cells[r as int] && v2@ == kernel[r as int]);
            let mut sum_v = T::zero();
            let mut c: usize = 0;
            while c < v1.len()
                invariant
                    c <= v1.len(),
                    v1@.len() == v2@.len(),
                    sum_v == row_dot_upto(v1@, v2@, c as nat),
                decreases v1.len() - c,
            {
                sum_v = sum_v.plus(v1[c].times(v2[c]));
                c += 1;
            }
            sum_m = sum_m.plus(sum_v);
            r += 1;
        }
        sum_m.over(weights_len)
    }

    /// Convolves the kernel over `matrix` and samples the result by the stride.
    ///
    /// A response is computed at every row whose index is a multiple of the
    /// row stride and, in it, at every column whose index is a multiple of
    /// the column stride. A kernel with an even dimension has no centre: its
    /// windows never have its shape, and the filter is refused.
    pub fn apply_filter(&self, matrix: &Vec<Vec<T>>) -> (r: Result<Vec<Vec<T>>, ConvError>)
        ensures
            match r {
                Ok(output) => self@.centred() && grid(&output) == self@.apply(grid(matrix)),
                Err(e) => !self@.centred() && e == ConvError::DimensionMismatch,
            },
    {
        proof {
            use_type_invariant(self);
        }
        if self.kernel_size.0 % 2 != 1 || self.kernel_size.1 % 2 != 1 {
            return Err(ConvError::DimensionMismatch);
        }
        let stride_rows: usize = self.stride.0 as usize;
        let stride_cols: usize = self.stride.1 as usize;
        let ghost m = grid(matrix);
        let mut output_matrix: Vec<Vec<T>> = Vec::new();
        let mut m_i: usize = 0;
        assert(output_matrix.len() * stride_rows == 0) by (nonlinear_arith)
            requires
                output_matrix.len() == 0,
        ;
        while m_i < matrix.len()
            invariant
                m_i <= matrix.len(),
                stride_rows == self@.stride.0,
                stride_cols == self@.stride.1,
                stride_rows > 0,
                stride_cols > 0,
                self@.centred(),
                m == grid(matrix),
                m_i < matrix.len() ==> m_i == output_matrix.len() * stride_rows,
                m_i == matrix.len() ==> output_matrix.len() == sampled(
                    matrix.len() as int,
                    stride_rows as int,
                ),
                forall|p: int|
                    0 <= p < output_matrix.len() ==> (#[trigger] output_matrix[p])@ == self@.apply(
                        m,
                    )[p],
            decreases matrix.len() - m_i,
        {
            let source = &matrix[m_i];
            let ghost p = output_matrix.len() as int;
            let mut vector: Vec<T> = Vec::new();
            let mut v_i: usize = 0;
            assert(vector.len() * stride_cols == 0) by (nonlinear_arith)
                requires
                    vector.len() == 0,
            ;
            while v_i < source.len()
                invariant
                    v_i <= source.len(),
                    m_i < matrix.len(),
                    source == &matrix[m_i as int],
                    stride_cols > 0,
                    self@.centred(),
                    m == grid(matrix),
                    v_i < source.len() ==> v_i == vector.len() * stride_cols,
                    v_i == source.len() ==> vector.len() == sampled(
                        source.len() as int,
                        stride_cols as int,
                    ),
                    forall|q: int|
                        0 <= q < vector.len() ==> #[trigger] vector[q] == self@.response(
                            m,
                            m_i as int,
                            q * stride_cols,
                        ),
                decreases source.len() - v_i,
            {
                let convolution = self.compute_convolution(matrix, m_i, v_i);
                let ghost q = vector.len() as int;
                vector.push(convolution);
                if stride_cols >= source.len() - v_i {
                    proof {
                        lemma_sampled_last(source.len() as int, stride_cols as int, q, v_i as int);
                    }
                    v_i = source.len();
                } else {
                    assert((q + 1) * stride_cols == q * stride_cols + stride_cols)
                        by (nonlinear_arith);
                    v_i += stride_cols;
                }
            }
            proof {
                assert(m[m_i as int] == source@);
                assert(p * stride_rows == m_i);
                lemma_sampled_bound(matrix.len() as int, stride_rows as int, p);
                assert(vector@ =~= self@.apply(m)[p]);
            }
            output_matrix.push(vector);
            if stride_rows >= matrix.len() - m_i {
                proof {
                    lemma_sampled_last(matrix.len() as int, stride_rows as int, p, m_i as int);
                }
                m_i = matrix.len();
            } else {
                assert((p + 1) * stride_rows == p * stride_rows + stride_rows)
                    by (nonlinear_arith);
                m_i += stride_rows;
            }
        }
        assert(grid(&output_matrix) =~= self@.apply(m));
        Ok(output_matrix)
    }
}

} // verus!
