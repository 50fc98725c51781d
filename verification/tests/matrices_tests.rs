use convolution::error::ConvError;
use convolution::matrices::dot_matrices;
use convolution::scalar::Scalar;

#[derive(Clone, Copy, Debug, PartialEq)]
struct Real(f32);

impl Scalar for Real {
    fn spec_zero() -> Self {
        Self::zero()
    }
    fn spec_one() -> Self {
        Self::one()
    }
    fn spec_plus(self, rhs: Self) -> Self {
        self.plus(rhs)
    }
    fn spec_times(self, rhs: Self) -> Self {
        self.times(rhs)
    }
    fn spec_over(self, count: u32) -> Self {
        self.over(count)
    }
    fn spec_relu(self) -> Self {
        self.relu()
    }
    fn is_nonnegative(self) -> bool {
        self.0 >= 0.0
    }
    fn is_unit_weight(self) -> bool {
        self.0 > 0.0 && self.0 <= 1.0
    }
    fn spec_from_sample(sample: u32) -> Self {
        Self::from_sample(sample)
    }
    fn zero() -> Self {
        Real(0.0)
    }
    fn one() -> Self {
        Real(1.0)
    }
    fn plus(self, rhs: Self) -> Self {
        Real(self.0 + rhs.0)
    }
    fn times(self, rhs: Self) -> Self {
        Real(self.0 * rhs.0)
    }
    fn over(self, count: u32) -> Self {
        Real(self.0 / count as f32)
    }
    fn relu(self) -> Self {
        Real(self.0.max(0.0))
    }
    fn from_sample(sample: u32) -> Self {
        Real((sample + 1) as f32 / 16_777_216.0)
    }
}

fn reals(rows: Vec<Vec<f32>>) -> Vec<Vec<Real>> {
    rows.into_iter().map(|row| row.into_iter().map(Real).collect()).collect()
}

#[test]
fn test_dot_matrices() {
    let m1 = reals(vec![vec![1.0, 2.0, 3.0], vec![3.0, 9.0, 4.0], vec![8.0, 2.0, 3.0]]);
    let m2 = reals(vec![vec![3.0, 9.0, 4.0], vec![3.0, 3.0, 4.0], vec![8.0, 1.0, 5.0]]);
    let dot_product = dot_matrices(&m1, &m2);
    assert!(dot_product == Ok(Real(166.0)));
}

#[test]
fn dot_of_integer_matrices() {
    let m1: Vec<Vec<i64>> = vec![vec![1, 2, 3], vec![3, 9, 4], vec![8, 2, 3]];
    let m2: Vec<Vec<i64>> = vec![vec![3, 9, 4], vec![3, 3, 4], vec![8, 1, 5]];
    assert_eq!(dot_matrices(&m1, &m2), Ok(166));
}

#[test]
fn dot_of_empty_matrices_is_zero() {
    let m1: Vec<Vec<i64>> = vec![];
    let m2: Vec<Vec<i64>> = vec![];
    assert_eq!(dot_matrices(&m1, &m2), Ok(0));
    let r1: Vec<Vec<i64>> = vec![vec![], vec![]];
    let r2: Vec<Vec<i64>> = vec![vec![], vec![]];
    assert_eq!(dot_matrices(&r1, &r2), Ok(0));
}

#[test]
fn dot_refuses_different_row_counts() {
    let m1: Vec<Vec<i64>> = vec![vec![1, 2], vec![3, 4]];
    let m2: Vec<Vec<i64>> = vec![vec![1, 2]];
    assert_eq!(dot_matrices(&m1, &m2), Err(ConvError::DimensionMismatch));
    assert_eq!(dot_matrices(&m2, &m1), Err(ConvError::DimensionMismatch));
}

#[test]
fn dot_refuses_different_row_lengths() {
    let m1: Vec<Vec<i64>> = vec![vec![1, 2], vec![3, 4]];
    let m2: Vec<Vec<i64>> = vec![vec![1, 2], vec![3]];
    assert_eq!(dot_matrices(&m1, &m2), Err(ConvError::DimensionMismatch));
}

#[test]
fn dot_is_linear_in_the_second_matrix() {
    let window: Vec<Vec<i64>> = vec![vec![1, 2, 3], vec![3, 9, 4], vec![8, 2, 3]];
    let kernel: Vec<Vec<i64>> = vec![vec![3, 9, 4], vec![3, 3, 4], vec![8, 1, 5]];
    let k: i64 = 3;
    let scaled: Vec<Vec<i64>> =
        kernel.iter().map(|row| row.iter().map(|w| k.times(*w)).collect()).collect();
    assert_eq!(dot_matrices(&window, &scaled), Ok(498));
    assert_eq!(dot_matrices(&window, &scaled), Ok(k.times(dot_matrices(&window, &kernel).unwrap())));
}

#[test]
fn dot_with_zeros_is_zero() {
    let window: Vec<Vec<i64>> = vec![vec![7, -2], vec![i64::MAX, i64::MIN]];
    let zeros: Vec<Vec<i64>> = vec![vec![0, 0], vec![0, 0]];
    assert_eq!(dot_matrices(&window, &zeros), Ok(0));
}

#[test]
fn integer_cells_wrap_around() {
    assert_eq!(i64::MAX.plus(1), i64::MIN);
    assert_eq!(i64::MIN.plus(-1), i64::MAX);
    assert_eq!(i64::MAX.times(2), -2);
    assert_eq!(5i64.times(3).plus(1), 16);
}

#[test]
fn integer_cells_divide_towards_zero() {
    assert_eq!(9i64.over(6), 1);
    assert_eq!((-7i64).over(2), -3);
    assert_eq!(7i64.over(2), 3);
    assert_eq!(i64::MIN.over(1), i64::MIN);
    assert_eq!(0i64.over(4), 0);
}

#[test]
fn integer_relu_and_constants() {
    assert_eq!((-5i64).relu(), 0);
    assert_eq!(5i64.relu(), 5);
    assert_eq!(0i64.relu(), 0);
    assert_eq!(<i64 as Scalar>::zero(), 0);
    assert_eq!(<i64 as Scalar>::one(), 1);
    assert_eq!(<i64 as Scalar>::from_sample(0), 1);
    assert_eq!(<i64 as Scalar>::from_sample(16_777_215), 1);
}
