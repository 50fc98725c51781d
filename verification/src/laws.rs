//! What holds of every filter and every layer.

use crate::filter::FilterView;
use crate::layer::LayerView;
use crate::matrices::{
    all_zero, dot, dot_upto, fold_plus, has_dimensions, row_dot, row_dot_upto, same_shape, scaled,
    sum_maps,
};
use crate::scalar::{ExactScalar, Scalar};
use crate::window::sampled;
use vstd::prelude::*;

verus! {

/// With a stride of one every index is sampled.
proof fn lemma_sampled_unit(len: int)
    requires
        len >= 0,
    ensures
        sampled(len, 1) == len,
{
}

/// A stride that divides the length samples the length divided by it.
proof fn lemma_sampled_dividing(len: int, stride: int)
    requires
        len >= 0,
        stride > 0,
        len % stride == 0,
    ensures
        sampled(len, stride) == len / stride,
{
    if len > 0 {
        let count = len / stride;
        vstd::arithmetic::div_mod::lemma_fundamental_div_mod(len, stride);
        assert(count >= 1) by (nonlinear_arith)
            requires
                len == stride * count,
                len > 0,
                stride > 0,
        ;
        vstd::arithmetic::div_mod::lemma_div_multiples_vanish_fancy(count - 1, stride - 1, stride);
        assert(stride * (count - 1) + (stride - 1) == len - 1) by (nonlinear_arith)
            requires
                len == stride * count,
        ;
    }
}

/// The number of sampled indices is the length divided by the stride, rounded
/// up.
pub proof fn lemma_sampled_is_ceiling(len: int, stride: int)
    requires
        len >= 0,
        stride > 0,
    ensures
        sampled(len, stride) == (len + stride - 1) / stride,
{
    if len == 0 {
        vstd::arithmetic::div_mod::lemma_div_multiples_vanish_fancy(0, stride - 1, stride);
        assert(stride * 0 == 0) by (nonlinear_arith);
    } else {
        vstd::arithmetic::div_mod::lemma_div_plus_one(len - 1, stride);
    }
}

/// A filter with stride `(1, 1)` yields a feature map of the input's shape.
pub proof fn lemma_unit_stride_keeps_shape<T: Scalar>(f: FilterView<T>, m: Seq<Seq<T>>)
    requires
        f.wf(),
        f.stride == (1i32, 1i32),
    ensures
        same_shape(f.apply(m), m),
{
    let out = f.apply(m);
    lemma_sampled_unit(m.len() as int);
    assert forall|r: int| 0 <= r < out.len() implies (#[trigger] out[r]).len() == m[r].len() by {
        assert(r * 1 == r);
        lemma_sampled_unit(m[r].len() as int);
    }
}

/// Where the row stride divides the number of rows and the column stride the
/// number of columns, the feature map has the input's dimensions divided by
/// the strides.
pub proof fn lemma_dividing_stride_shape<T: Scalar>(
    f: FilterView<T>,
    m: Seq<Seq<T>>,
    rows: int,
    cols: int,
)
    requires
        f.wf(),
        has_dimensions(m, rows, cols),
        rows % (f.stride.0 as int) == 0,
        cols % (f.stride.1 as int) == 0,
    ensures
        has_dimensions(f.apply(m), rows / (f.stride.0 as int), cols / (f.stride.1 as int)),
{
    let out = f.apply(m);
    let s_r = f.stride.0 as int;
    let s_c = f.stride.1 as int;
    lemma_sampled_dividing(rows, s_r);
    assert forall|p: int| 0 <= p < out.len() implies (#[trigger] out[p]).len() == cols / s_c by {
        vstd::arithmetic::div_mod::lemma_fundamental_div_mod(rows, s_r);
        assert(0 <= p * s_r < rows) by (nonlinear_arith)
            requires
                0 <= p < rows / s_r,
                rows == s_r * (rows / s_r),
                s_r > 0,
        ;
        assert(m[p * s_r].len() == cols);
        lemma_sampled_dividing(cols, s_c);
    }
}

/// Scaling the second row by `k` scales the sum of products by `k`.
proof fn lemma_row_dot_linear<T: ExactScalar>(a: Seq<T>, b: Seq<T>, kb: Seq<T>, k: T, n: nat)
    requires
        n <= a.len(),
        a.len() == b.len(),
        b.len() == kb.len(),
        forall|c: int| 0 <= c < b.len() ==> #[trigger] kb[c] == k.spec_times(b[c]),
    ensures
        row_dot_upto(a, kb, n) == k.spec_times(row_dot_upto(a, b, n)),
    decreases n,
{
    if n == 0 {
        T::times_zero(k);
    } else {
        let c = (n - 1) as int;
        let before = row_dot_upto(a, b, (n - 1) as nat);
        lemma_row_dot_linear(a, b, kb, k, (n - 1) as nat);
        T::times_associates(a[c], k, b[c]);
        T::times_commutes(a[c], k);
        T::times_associates(k, a[c], b[c]);
        T::times_distributes(k, before, a[c].spec_times(b[c]));
    }
}

/// Scaling the rows of the second matrix by `k` scales the sum of the row
/// sums by `k`.
proof fn lemma_dot_upto_linear<T: ExactScalar>(a: Seq<Seq<T>>, b: Seq<Seq<T>>, k: T, n: nat)
    requires
        n <= a.len(),
        same_shape(a, b),
    ensures
        dot_upto(a, scaled(b, k), n) == k.spec_times(dot_upto(a, b, n)),
    decreases n,
{
    if n == 0 {
        T::times_zero(k);
    } else {
        let r = (n - 1) as int;
        let before = dot_upto(a, b, (n - 1) as nat);
        lemma_dot_upto_linear(a, b, k, (n - 1) as nat);
        lemma_row_dot_linear(a[r], b[r], scaled(b, k)[r], k, a[r].len());
        T::times_distributes(k, before, row_dot(a[r], b[r]));
    }
}

/// The weighted sum is linear in the kernel: with every weight multiplied by
/// `k`, the sum over a window of the kernel's shape is `k` times what it was.
/// This is said of the sum before it is divided by the normalizer.
pub proof fn lemma_convolution_sum_linear<T: ExactScalar>(
    window: Seq<Seq<T>>,
    kernel: Seq<Seq<T>>,
    k: T,
)
    requires
        same_shape(window, kernel),
    ensures
        dot(window, scaled(kernel, k)) == k.spec_times(dot(window, kernel)),
{
    lemma_dot_upto_linear(window, kernel, k, window.len());
}

/// The products of a row with a row of zeros sum to zero.
proof fn lemma_row_dot_zero<T: ExactScalar>(a: Seq<T>, b: Seq<T>, n: nat)
    requires
        n <= a.len(),
        a.len() == b.len(),
        forall|c: int| 0 <= c < b.len() ==> #[trigger] b[c] == T::spec_zero(),
    ensures
        row_dot_upto(a, b, n) == T::spec_zero(),
    decreases n,
{
    if n > 0 {
        lemma_row_dot_zero(a, b, (n - 1) as nat);
        T::times_zero(a[n - 1]);
        T::plus_zero(T::spec_zero());
    }
}

/// The products of a matrix with a matrix of zeros sum to zero.
proof fn lemma_dot_zero<T: ExactScalar>(a: Seq<Seq<T>>, b: Seq<Seq<T>>, n: nat)
    requires
        n <= a.len(),
        same_shape(a, b),
        all_zero(b),
    ensures
        dot_upto(a, b, n) == T::spec_zero(),
    decreases n,
{
    if n > 0 {
        let r = (n - 1) as int;
        lemma_dot_zero(a, b, (n - 1) as nat);
        assert forall|c: int| 0 <= c < b[r].len() implies #[trigger] b[r][c] == T::spec_zero() by {}
        lemma_row_dot_zero(a[r], b[r], a[r].len());
        T::plus_zero(T::spec_zero());
    }
}

/// A kernel of zeros gives a feature map of zeros, whatever the input holds.
pub proof fn lemma_zero_kernel_zero_map<T: ExactScalar>(f: FilterView<T>, m: Seq<Seq<T>>)
    requires
        f.wf(),
        f.centred(),
        all_zero(f.weights),
    ensures
        all_zero(f.apply(m)),
{
    let out = f.apply(m);
    assert forall|p: int, q: int| 0 <= p < out.len() && 0 <= q < out[p].len() implies #[trigger] out[p][q]
        == T::spec_zero() by {
        let w = f.window(m, p * f.stride.0, q * f.stride.1);
        assert(w.len() == f.weights.len());
        assert forall|r: int| 0 <= r < w.len() implies (#[trigger] w[r]).len()
            == f.weights[r].len() by {}
        lemma_dot_zero(w, f.weights, w.len());
        T::zero_over(f.normalizer());
    }
}

/// A term put in front of a sum adds to it from the left.
proof fn lemma_fold_plus_front<T: ExactScalar>(x: T, terms: Seq<T>)
    requires
        terms.len() >= 1,
    ensures
        fold_plus(seq![x] + terms) == x.spec_plus(fold_plus(terms)),
    decreases terms.len(),
{
    let all = seq![x] + terms;
    assert(fold_plus(all) == fold_plus(all.drop_last()).spec_plus(all.last()));
    if terms.len() == 1 {
        assert(all.drop_last() =~= seq![x]);
        assert(all.last() == terms[0]);
        assert(fold_plus(seq![x]) == x);
        assert(fold_plus(terms) == terms[0]);
    } else {
        let fewer = terms.drop_last();
        lemma_fold_plus_front(x, fewer);
        assert(all.drop_last() =~= seq![x] + fewer);
        assert(all.last() == terms.last());
        assert(fold_plus(terms) == fold_plus(fewer).spec_plus(terms.last()));
        T::plus_associates(x, fold_plus(fewer), terms.last());
    }
}

/// The sum of terms does not depend on whether they are added from the first
/// to the last or from the last to the first.
pub proof fn lemma_fold_plus_reversed<T: ExactScalar>(terms: Seq<T>)
    requires
        terms.len() >= 1,
    ensures
        fold_plus(terms.reverse()) == fold_plus(terms),
    decreases terms.len(),
{
    if terms.len() == 1 {
        assert(terms.reverse() =~= terms);
    } else {
        let fewer = terms.drop_last();
        lemma_fold_plus_reversed(fewer);
        assert(terms.reverse() =~= seq![terms.last()] + fewer.reverse());
        lemma_fold_plus_front(terms.last(), fewer.reverse());
        T::plus_commutes(terms.last(), fold_plus(fewer));
    }
}

/// Summing feature maps of one shape in the reverse order gives the same map.
pub proof fn lemma_sum_maps_reversed<T: ExactScalar>(maps: Seq<Seq<Seq<T>>>)
    requires
        maps.len() >= 1,
        forall|k: int| 0 <= k < maps.len() ==> same_shape(maps[0], #[trigger] maps[k]),
    ensures
        sum_maps(maps.reverse()) == sum_maps(maps),
{
    let forward = sum_maps(maps);
    let backward = sum_maps(maps.reverse());
    let last = maps.len() - 1;
    assert(maps.reverse()[0] == maps[last]);
    assert(same_shape(maps[0], maps[last]));
    assert(backward.len() == forward.len());
    assert forall|p: int| 0 <= p < forward.len() implies backward[p] == forward[p] by {
        assert(backward[p].len() == forward[p].len());
        assert forall|q: int| 0 <= q < forward[p].len() implies backward[p][q]
            == forward[p][q] by {
            let terms = Seq::new(maps.len(), |k: int| maps[k][p][q]);
            let mirrored = Seq::new(maps.len(), |k: int| maps.reverse()[k][p][q]);
            assert(mirrored =~= terms.reverse());
            lemma_fold_plus_reversed(terms);
        }
        assert(backward[p] =~= forward[p]);
    }
    assert(backward =~= forward);
}

/// The feature maps of a layer's filters all have one shape, so that they can
/// be summed cell by cell.
pub proof fn lemma_layer_maps_share_shape<T: Scalar>(layer: LayerView<T>, m: Seq<Seq<T>>)
    requires
        layer.wf(),
    ensures
        forall|k: int|
            0 <= k < layer.maps(m).len() ==> same_shape(
                layer.maps(m)[0],
                #[trigger] layer.maps(m)[k],
            ),
{
    let maps = layer.maps(m);
    assert forall|k: int| 0 <= k < maps.len() implies same_shape(maps[0], #[trigger] maps[k]) by {
        assert(layer.filters[k].stride == layer.filters[0].stride);
    }
}

/// A layer's output does not depend on whether its filters are summed from
/// the first to the last or from the last to the first.
pub proof fn lemma_filter_order_reversed<T: ExactScalar>(layer: LayerView<T>, m: Seq<Seq<T>>)
    requires
        layer.wf(),
    ensures
        (LayerView { filters: layer.filters.reverse(), ..layer }).wf(),
        (LayerView { filters: layer.filters.reverse(), ..layer }).apply(m) == layer.apply(m),
{
    let mirrored = LayerView { filters: layer.filters.reverse(), ..layer };
    let maps = layer.maps(m);
    assert(mirrored.filters.len() == layer.filters.len());
    assert forall|k: int| 0 <= k < mirrored.filters.len() implies {
        &&& (#[trigger] mirrored.filters[k]).wf()
        &&& mirrored.filters[k].kernel_size == mirrored.kernel_size
        &&& mirrored.filters[k].stride == mirrored.strides
        &&& mirrored.filters[k].padding == mirrored.padding
    } by {
        assert(mirrored.filters[k] == layer.filters[layer.filters.len() - 1 - k]);
    }
    assert(mirrored.maps(m) =~= maps.reverse());
    lemma_layer_maps_share_shape(layer, m);
    lemma_sum_maps_reversed(maps);
}

} // verus!
