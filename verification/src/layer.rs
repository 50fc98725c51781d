//! A convolution layer: filters of one configuration, whose maps are summed
//! cell by cell and passed through an activation.

use crate::activation::{activate_map, Activation};
use crate::error::ConvError;
use crate::filter::{all_drawn, valid_configuration, Filter, FilterView};
use crate::laws::lemma_layer_maps_share_shape;
use crate::matrices::{
    copy_matrix, grid, lemma_sum_maps_single, lemma_sum_maps_step, same_shape, sum_maps,
    sum_matrices,
};
use crate::scalar::Scalar;
use crate::window::Padding;
use vstd::prelude::*;

verus! {

/// Filters that share kernel size, stride and padding, and the activation
/// applied to the sum of their maps.
pub struct Layer<T: Scalar> {
    filters: Vec<Filter<T>>,
    num_filters: i32,
    activation: Activation,
    padding: Padding,
    input_shape: (i32, i32, i32),
    strides: (i32, i32),
    kernel_size: (i32, i32),
}

/// What a layer is, as plain values.
pub struct LayerView<T> {
    pub filters: Seq<FilterView<T>>,
    pub num_filters: i32,
    pub activation: Activation,
    pub padding: Padding,
    /// Rows, columns and channels of the input that the layer is meant for.
    /// It is kept as given and takes no part in the convolution.
    pub input_shape: (i32, i32, i32),
    pub strides: (i32, i32),
    pub kernel_size: (i32, i32),
}

/// The filters as plain values, in their order.
pub open spec fn filter_views<T: Scalar>(filters: Seq<Filter<T>>) -> Seq<FilterView<T>> {
    Seq::new(filters.len(), |k: int| filters[k]@)
}

/// Every filter has the kernel size, the stride and the padding of the first.
pub open spec fn uniform<T>(filters: Seq<FilterView<T>>) -> bool {
    forall|k: int|
        0 <= k < filters.len() ==> {
            &&& (#[trigger] filters[k]).kernel_size == filters[0].kernel_size
            &&& filters[k].stride == filters[0].stride
            &&& filters[k].padding == filters[0].padding
        }
}

impl<T: Scalar> LayerView<T> {
    /// The layer has `num_filters` filters, at least one, and each of them is
    /// well-formed with the layer's kernel size, stride and padding.
    pub open spec fn wf(self) -> bool {
        &&& self.num_filters > 0
        &&& self.filters.len() == self.num_filters
        &&& valid_configuration(self.kernel_size, self.strides)
        &&& forall|k: int|
            0 <= k < self.filters.len() ==> {
                &&& (#[trigger] self.filters[k]).wf()
                &&& self.filters[k].kernel_size == self.kernel_size
                &&& self.filters[k].stride == self.strides
                &&& self.filters[k].padding == self.padding
            }
    }

    /// The kernels have a centre cell: both dimensions are odd.
    pub open spec fn centred(self) -> bool {
        self.kernel_size.0 % 2 == 1 && self.kernel_size.1 % 2 == 1
    }

    /// The feature maps of the filters, in their order.
    pub open spec fn maps(self, m: Seq<Seq<T>>) -> Seq<Seq<Seq<T>>> {
        Seq::new(self.filters.len(), |k: int| self.filters[k].apply(m))
    }

    /// The sum of the filters' feature maps, before the activation.
    pub open spec fn summed(self, m: Seq<Seq<T>>) -> Seq<Seq<T>> {
        sum_maps(self.maps(m))
    }

    /// The layer's output: the activation of every cell of the summed map.
    pub open spec fn apply(self, m: Seq<Seq<T>>) -> Seq<Seq<T>> {
        activate_map(self.activation, self.summed(m))
    }
}

impl<T: Scalar> View for Layer<T> {
    type V = LayerView<T>;

    closed spec fn view(&self) -> LayerView<T> {
        LayerView {
            filters: filter_views(self.filters@),
            num_filters: self.num_filters,
            activation: self.activation,
            padding: self.padding,
            input_shape: self.input_shape,
            strides: self.strides,
            kernel_size: self.kernel_size,
        }
    }
}

impl<T: Scalar> Layer<T> {
    /// Every layer is well-formed.
    #[verifier::type_invariant]
    pub open spec fn well_formed(self) -> bool {
        self@.wf()
    }

    /// A layer of `num_filters` filters with freshly drawn weights.
    ///
    /// Fails with `EmptyFilterSet` where `num_filters` is not positive, and
    /// else with `InvalidConfiguration` where a stride or a kernel dimension
    /// is not positive.
    pub fn new(
        num_filters: i32,
        kernel_size: (i32, i32),
        strides: (i32, i32),
        activation: Activation,
        padding: Padding,
        input_shape: (i32, i32, i32),
    ) -> (r: Result<Layer<T>, ConvError>)
        ensures
            match r {
                Ok(layer) => {
                    &&& num_filters > 0
                    &&& layer@.wf()
                    &&& layer@.num_filters == num_filters
                    &&& layer@.kernel_size == kernel_size
                    &&& layer@.strides == strides
                    &&& layer@.activation == activation
                    &&& layer@.padding == padding
                    &&& layer@.input_shape == input_shape
                    &&& forall|k: int|
                        0 <= k < layer@.filters.len() ==> all_drawn(
                            (#[trigger] layer@.filters[k]).weights,
                        )
                },
                Err(e) => if num_filters <= 0 {
                    e == ConvError::EmptyFilterSet
                } else {
                    !valid_configuration(kernel_size, strides) && e
                        == ConvError::InvalidConfiguration
                },
            },
    {
        if num_filters <= 0 {
            return Err(ConvError::EmptyFilterSet);
        }
        let mut filters: Vec<Filter<T>> = Vec::new();
        let mut k: i32 = 0;
        while k < num_filters
            invariant
                0 <= k <= num_filters,
                filters@.len() == k,
                k > 0 ==> valid_configuration(kernel_size, strides),
                forall|x: int|
                    0 <= x < k ==> {
                        &&& (#[trigger] filters@[x])@.wf()
                        &&& filters@[x]@.kernel_size == kernel_size
                        &&& filters@[x]@.stride == strides
                        &&& filters@[x]@.padding == padding
                        &&& all_drawn(filters@[x]@.weights)
                    },
            decreases num_filters - k,
        {
            match Filter::new(kernel_size, strides, padding) {
                Ok(filter) => {
                    filters.push(filter);
                },
                Err(e) => {
                    return Err(e);
                },
            }
            k += 1;
        }
        Ok(Layer { filters, num_filters, activation, padding, input_shape, strides, kernel_size })
    }

    /// A layer of the given filters, which must share one kernel size, one
    /// stride and one padding.
    ///
    /// Fails with `EmptyFilterSet` where there is no filter, with
    /// `InvalidConfiguration` where there are more than `i32::MAX` of them,
    /// and else with `DimensionMismatch` where a filter differs from the first
    /// in kernel size, stride or padding.
    pub fn with_filters(
        filters: Vec<Filter<T>>,
        activation: Activation,
        input_shape: (i32, i32, i32),
    ) -> (r: Result<Layer<T>, ConvError>)
        ensures
            match r {
                Ok(layer) => {
                    &&& 0 < filters@.len() <= i32::MAX
                    &&& uniform(filter_views(filters@))
                    &&& layer@ == (LayerView {
                        filters: filter_views(filters@),
                        num_filters: filters@.len() as i32,
                        activation,
                        padding: filters@[0]@.padding,
                        input_shape,
                        strides: filters@[0]@.stride,
                        kernel_size: filters@[0]@.kernel_size,
                    })
                },
                Err(e) => if filters@.len() == 0 {
                    e == ConvError::EmptyFilterSet
                } else if filters@.len() > i32::MAX {
                    e == ConvError::InvalidConfiguration
                } else {
                    !uniform(filter_views(filters@)) && e == ConvError::DimensionMismatch
                },
            },
    {
        if filters.len() == 0 {
            return Err(ConvError::EmptyFilterSet);
        }
        if filters.len() > i32::MAX as usize {
            return Err(ConvError::InvalidConfiguration);
        }
        let kernel_size = filters[0].kernel_size();
        let strides = filters[0].stride();
        let padding = filters[0].padding();
        let ghost views = filter_views(filters@);
        let mut k: usize = 0;
        while k < filters.len()
            invariant
                k <= filters.len(),
                0 < filters.len() <= i32::MAX,
                views == filter_views(filters@),
                kernel_size == views[0].kernel_size,
                strides == views[0].stride,
                padding == views[0].padding,
                forall|x: int|
                    0 <= x < k ==> {
                        &&& (#[trigger] views[x]).wf()
                        &&& views[x].kernel_size == kernel_size
                        &&& views[x].stride == strides
                        &&& views[x].padding == padding
                    },
            decreases filters.len() - k,
        {
            let filter = &filters[k];
            proof {
                use_type_invariant(filter);
                assert(views[k as int] == filter@);
            }
            let size = filter.kernel_size();
            let stride = filter.stride();
            if size.0 != kernel_size.0 || size.1 != kernel_size.1 || stride.0 != strides.0
                || stride.1 != strides.1 || filter.padding() != padding {
                return Err(ConvError::DimensionMismatch);
            }
            k += 1;
        }
        let num_filters = filters.len() as i32;
        Ok(Layer { filters, num_filters, activation, padding, input_shape, strides, kernel_size })
    }

    /// Applies every filter to `matrix`, sums the feature maps cell by cell in
    /// the order of the filters, and applies the activation to every cell.
    ///
    /// With `Relu` no cell of the result is negative; with `Identity` the
    /// result is the summed map itself. Kernels with an even dimension are
    /// refused, as a single filter refuses them.
    pub fn apply_filters(&self, matrix: &Vec<Vec<T>>) -> (r: Result<Vec<Vec<T>>, ConvError>)
        ensures
            match r {
                Ok(output) => {
                    &&& self@.centred()
                    &&& grid(&output) == self@.apply(grid(matrix))
                    &&& self@.activation == Activation::Relu ==> forall|p: int, q: int|
                        0 <= p < grid(&output).len() && 0 <= q < grid(&output)[p].len() ==> (
                        #[trigger] grid(&output)[p][q]).is_nonnegative()
                    &&& self@.activation == Activation::Identity ==> grid(&output) == self@.summed(
                        grid(matrix),
                    )
                },
                Err(e) => !self@.centred() && e == ConvError::DimensionMismatch,
            },
    {
        proof {
            use_type_invariant(self);
        }
        let ghost m = grid(matrix);
        let ghost maps = self@.maps(m);
        let mut output_matrices: Vec<Vec<Vec<T>>> = Vec::new();
        let mut k: usize = 0;
        while k < self.filters.len()
            invariant
                k <= self.filters.len(),
                self@.wf(),
                m == grid(matrix),
                maps == self@.maps(m),
                output_matrices@.len() == k,
                k > 0 ==> self@.centred(),
                forall|x: int| 0 <= x < k ==> grid(#[trigger] &output_matrices@[x]) == maps[x],
            decreases self.filters.len() - k,
        {
            let filter = &self.filters[k];
            assert(self@.filters[k as int] == filter@);
            match filter.apply_filter(matrix) {
                Ok(output) => {
                    output_matrices.push(output);
                },
                Err(e) => {
                    return Err(e);
                },
            }
            k += 1;
        }
        proof {
            lemma_layer_maps_share_shape(self@, m);
        }
        let mut output_matrix = copy_matrix(&output_matrices[0]);
        proof {
            lemma_sum_maps_single(maps.take(1));
        }
        let mut k: usize = 1;
        while k < output_matrices.len()
            invariant
                1 <= k <= output_matrices.len(),
                output_matrices@.len() == maps.len(),
                forall|x: int|
                    0 <= x < output_matrices@.len() ==> grid(#[trigger] &output_matrices@[x])
                        == maps[x],
                forall|x: int| 0 <= x < maps.len() ==> same_shape(maps[0], #[trigger] maps[x]),
                grid(&output_matrix) == sum_maps(maps.take(k as int)),
            decreases output_matrices.len() - k,
        {
            proof {
                lemma_sum_maps_step(maps, k as int);
                assert(same_shape(maps[0], maps[k as int]));
                assert(same_shape(grid(&output_matrix), grid(&output_matrices@[k as int])));
            }
            output_matrix = sum_matrices(&output_matrix, &output_matrices[k]);
            k += 1;
        }
        assert(maps.take(maps.len() as int) =~= maps);
        self.apply_activation(&mut output_matrix, self.activation);
        Ok(output_matrix)
    }

    /// Applies the activation to every cell of `matrix`.
    fn apply_activation(&self, matrix: &mut Vec<Vec<T>>, activation: Activation)
        ensures
            grid(final(matrix)) == activate_map(activation, grid(old(matrix))),
            activation == Activation::Relu ==> forall|p: int, q: int|
                0 <= p < grid(final(matrix)).len() && 0 <= q < grid(final(matrix))[p].len() ==> (
                #[trigger] grid(final(matrix))[p][q]).is_nonnegative(),
            activation == Activation::Identity ==> grid(final(matrix)) == grid(old(matrix)),
    {
        match activation {
            Activation::Identity => {
                assert(grid(matrix) =~~= activate_map(activation, grid(matrix)));
            },
            Activation::Relu => {
                let mut activated: Vec<Vec<T>> = Vec::new();
                let mut p: usize = 0;
                while p < matrix.len()
                    invariant
                        p <= matrix.len(),
                        activation == Activation::Relu,
                        activated@.len() == p,
                        forall|k: int|
                            0 <= k < p ==> (#[trigger] activated@[k])@ == activate_map(
                                activation,
                                grid(matrix),
                            )[k],
                        forall|k: int, b: int|
                            0 <= k < p && 0 <= b < activated@[k]@.len() ==> (
                            #[trigger] activated@[k]@[b]).is_nonnegative(),
                    decreases matrix.len() - p,
                {
                    let source = &matrix[p];
                    let mut row: Vec<T> = Vec::new();
                    let mut q: usize = 0;
                    while q < source.len()
                        invariant
                            q <= source.len(),
                            activation == Activation::Relu,
                            row@.len() == q,
                            forall|b: int|
                                0 <= b < q ==> #[trigger] row@[b] == activation.spec_apply(
                                    source@[b],
                                ),
                            forall|b: int| 0 <= b < q ==> (#[trigger] row@[b]).is_nonnegative(),
                        decreases source.len() - q,
                    {
                        row.push(activation.apply(source[q]));
                        q += 1;
                    }
                    assert(row@ =~= activate_map(activation, grid(matrix))[p as int]);
                    activated.push(row);
                    p += 1;
                }
                assert(grid(&activated) =~= activate_map(activation, grid(matrix)));
                *matrix = activated;
            },
        }
    }

    /// The filters, in their order.
    pub fn filters(&self) -> (filters: &Vec<Filter<T>>)
        ensures
            filter_views(filters@) == self@.filters,
    {
        &self.filters
    }

    /// The number of filters.
    pub fn num_filters(&self) -> (n: i32)
        ensures
            n == self@.num_filters,
    {
        self.num_filters
    }

    /// The activation applied to the summed map.
    pub fn activation(&self) -> (activation: Activation)
        ensures
            activation == self@.activation,
    {
        self.activation
    }

    /// The padding mode of every filter.
    pub fn padding(&self) -> (padding: Padding)
        ensures
            padding == self@.padding,
    {
        self.padding
    }

    /// The declared shape of the input: rows, columns, channels.
    pub fn input_shape(&self) -> (shape: (i32, i32, i32))
        ensures
            shape == self@.input_shape,
    {
        self.input_shape
    }

    /// The stride of every filter.
    pub fn strides(&self) -> (strides: (i32, i32))
        ensures
            strides == self@.strides,
    {
        self.strides
    }

    /// The kernel dimensions of every filter.
    pub fn kernel_size(&self) -> (size: (i32, i32))
        ensures
            size == self@.kernel_size,
    {
        self.kernel_size
    }
}

} // verus!
