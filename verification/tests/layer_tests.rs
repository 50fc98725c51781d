use convolution::activation::Activation;
use convolution::error::ConvError;
use convolution::filter::{Filter, Padding};
use convolution::layer::Layer;

fn unit_filter(weight: i64, stride: (i32, i32)) -> Filter<i64> {
    Filter::with_weights((1, 1), stride, Padding::Zero, vec![vec![weight]]).unwrap()
}

fn signed() -> Vec<Vec<i64>> {
    vec![vec![1, -2], vec![-3, 4]]
}

#[test]
fn no_filters_is_an_error() {
    let r: Result<Layer<i64>, ConvError> =
        Layer::new(0, (3, 3), (1, 1), Activation::Relu, Padding::Zero, (3, 3, 1));
    assert_eq!(r.err(), Some(ConvError::EmptyFilterSet));
    let r: Result<Layer<i64>, ConvError> =
        Layer::new(-4, (3, 3), (1, 1), Activation::Relu, Padding::Zero, (3, 3, 1));
    assert_eq!(r.err(), Some(ConvError::EmptyFilterSet));
    let r: Result<Layer<i64>, ConvError> =
        Layer::with_filters(vec![], Activation::Identity, (3, 3, 1));
    assert_eq!(r.err(), Some(ConvError::EmptyFilterSet));
}

#[test]
fn no_filters_comes_before_a_bad_configuration() {
    let r: Result<Layer<i64>, ConvError> =
        Layer::new(0, (0, 3), (1, 1), Activation::Relu, Padding::Zero, (3, 3, 1));
    assert_eq!(r.err(), Some(ConvError::EmptyFilterSet));
}

#[test]
fn layer_refuses_what_is_not_positive() {
    let bad = [((0, 3), (1, 1)), ((3, -1), (1, 1)), ((3, 3), (0, 1)), ((3, 3), (1, -5))];
    for (kernel_size, strides) in bad {
        let r: Result<Layer<i64>, ConvError> =
            Layer::new(2, kernel_size, strides, Activation::Relu, Padding::Zero, (3, 3, 1));
        assert_eq!(r.err(), Some(ConvError::InvalidConfiguration));
    }
}

#[test]
fn new_builds_as_many_filters_as_asked() {
    let layer: Layer<i64> =
        Layer::new(4, (3, 5), (2, 1), Activation::Identity, Padding::Reflective, (9, 9, 3))
            .unwrap();
    assert_eq!(layer.num_filters(), 4);
    assert_eq!(layer.filters().len(), 4);
    assert_eq!(layer.kernel_size(), (3, 5));
    assert_eq!(layer.strides(), (2, 1));
    assert_eq!(layer.activation(), Activation::Identity);
    assert_eq!(layer.padding(), Padding::Reflective);
    assert_eq!(layer.input_shape(), (9, 9, 3));
    for filter in layer.filters() {
        assert_eq!(filter.kernel_size(), (3, 5));
        assert_eq!(filter.stride(), (2, 1));
        assert_eq!(filter.padding(), Padding::Reflective);
        assert_eq!(filter.weights(), &vec![vec![1i64; 5]; 3]);
    }
}

#[test]
fn with_filters_takes_the_configuration_of_the_filters() {
    let filters = vec![unit_filter(2, (1, 2)), unit_filter(4, (1, 2))];
    let layer = Layer::with_filters(filters, Activation::Relu, (5, 6, 7)).unwrap();
    assert_eq!(layer.num_filters(), 2);
    assert_eq!(layer.kernel_size(), (1, 1));
    assert_eq!(layer.strides(), (1, 2));
    assert_eq!(layer.padding(), Padding::Zero);
    assert_eq!(layer.activation(), Activation::Relu);
    assert_eq!(layer.input_shape(), (5, 6, 7));
    assert_eq!(layer.filters()[0].weights(), &vec![vec![2i64]]);
    assert_eq!(layer.filters()[1].weights(), &vec![vec![4i64]]);
}

#[test]
fn with_filters_refuses_filters_that_differ() {
    let by_stride = vec![unit_filter(2, (1, 1)), unit_filter(4, (1, 2))];
    let r = Layer::with_filters(by_stride, Activation::Relu, (2, 2, 1));
    assert_eq!(r.err(), Some(ConvError::DimensionMismatch));
    let by_size = vec![
        unit_filter(2, (1, 1)),
        Filter::with_weights((1, 3), (1, 1), Padding::Zero, vec![vec![1, 1, 1]]).unwrap(),
    ];
    let r = Layer::with_filters(by_size, Activation::Relu, (2, 2, 1));
    assert_eq!(r.err(), Some(ConvError::DimensionMismatch));
    let by_padding = vec![
        unit_filter(2, (1, 1)),
        Filter::with_weights((1, 1), (1, 1), Padding::Ones, vec![vec![2]]).unwrap(),
    ];
    let r = Layer::with_filters(by_padding, Activation::Relu, (2, 2, 1));
    assert_eq!(r.err(), Some(ConvError::DimensionMismatch));
}

#[test]
fn identity_gives_the_sum_of_the_maps() {
    let filters = vec![unit_filter(2, (1, 1)), unit_filter(4, (1, 1))];
    let layer = Layer::with_filters(filters, Activation::Identity, (2, 2, 1)).unwrap();
    assert_eq!(layer.apply_filters(&signed()), Ok(vec![vec![3, -6], vec![-9, 12]]));
    let first = unit_filter(2, (1, 1)).apply_filter(&signed()).unwrap();
    let second = unit_filter(4, (1, 1)).apply_filter(&signed()).unwrap();
    let out = layer.apply_filters(&signed()).unwrap();
    for p in 0..2 {
        for q in 0..2 {
            assert_eq!(out[p][q], first[p][q] + second[p][q]);
        }
    }
}

#[test]
fn relu_leaves_no_negative_cell() {
    let filters = vec![unit_filter(2, (1, 1)), unit_filter(4, (1, 1))];
    let layer = Layer::with_filters(filters, Activation::Relu, (2, 2, 1)).unwrap();
    let out = layer.apply_filters(&signed()).unwrap();
    assert_eq!(out, vec![vec![3, 0], vec![0, 12]]);
    assert!(out.iter().all(|row| row.iter().all(|c| *c >= 0)));
}

#[test]
fn a_single_filter_is_its_own_sum() {
    let weights: Vec<Vec<i64>> = vec![vec![1, 1, 1]; 3];
    let filter = Filter::with_weights((3, 3), (1, 1), Padding::Zero, weights.clone()).unwrap();
    let alone = Filter::with_weights((3, 3), (1, 1), Padding::Zero, weights).unwrap();
    let layer = Layer::with_filters(vec![filter], Activation::Identity, (3, 3, 1)).unwrap();
    let m: Vec<Vec<i64>> = vec![vec![1, 2, 3], vec![4, 5, 6], vec![7, 8, 9]];
    assert_eq!(layer.apply_filters(&m), alone.apply_filter(&m));
    assert_eq!(layer.apply_filters(&m), Ok(vec![vec![2, 3, 2], vec![4, 7, 5], vec![4, 6, 4]]));
}

#[test]
fn the_order_of_the_filters_does_not_matter() {
    let weights: [i64; 4] = [2, -4, 6, i64::MAX];
    let forward: Vec<Filter<i64>> = weights.iter().map(|w| unit_filter(*w, (1, 1))).collect();
    let backward: Vec<Filter<i64>> =
        weights.iter().rev().map(|w| unit_filter(*w, (1, 1))).collect();
    let a = Layer::with_filters(forward, Activation::Identity, (2, 2, 1)).unwrap();
    let b = Layer::with_filters(backward, Activation::Identity, (2, 2, 1)).unwrap();
    let m: Vec<Vec<i64>> = vec![vec![1, -2, 1000], vec![-3, 4, i64::MIN]];
    assert_eq!(a.apply_filters(&m), b.apply_filters(&m));
}

#[test]
fn layer_samples_by_the_stride() {
    let filters = vec![unit_filter(2, (2, 3)), unit_filter(2, (2, 3))];
    let layer = Layer::with_filters(filters, Activation::Identity, (4, 6, 1)).unwrap();
    let m: Vec<Vec<i64>> = (0..4).map(|i| (0..6).map(|j| 10 * i + j).collect()).collect();
    assert_eq!(layer.apply_filters(&m), Ok(vec![vec![0, 6], vec![40, 46]]));
}

#[test]
fn layer_refuses_even_kernels_when_applied() {
    let layer: Layer<i64> =
        Layer::new(2, (2, 2), (1, 1), Activation::Relu, Padding::Zero, (3, 3, 1)).unwrap();
    let m: Vec<Vec<i64>> = vec![vec![1, 2], vec![3, 4]];
    assert_eq!(layer.apply_filters(&m), Err(ConvError::DimensionMismatch));
}

#[test]
fn layer_on_nothing_gives_nothing() {
    let layer: Layer<i64> =
        Layer::new(3, (3, 3), (1, 1), Activation::Relu, Padding::Zero, (0, 0, 1)).unwrap();
    let empty: Vec<Vec<i64>> = vec![];
    assert_eq!(layer.apply_filters(&empty), Ok(vec![]));
}
