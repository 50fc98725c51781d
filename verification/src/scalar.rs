//! The numbers that a matrix cell can hold.

use vstd::prelude::*;

verus! {

/// A number type for matrix cells and kernel weights.
///
/// Each operation comes with a spec function of the same meaning, so that the
/// contracts of filters and layers can say which operations, in which order,
/// produce every cell of a result. Nothing is asked of the arithmetic itself:
/// it may round, wrap or saturate. What holds only of exact arithmetic is
/// stated for `ExactScalar`.
pub trait Scalar: Copy {
    /// The additive identity, and the fill of zero padding.
    spec fn spec_zero() -> Self;

    /// The fill of ones padding.
    spec fn spec_one() -> Self;

    /// The sum of two numbers.
    spec fn spec_plus(self, rhs: Self) -> Self;

    /// The product of two numbers.
    spec fn spec_times(self, rhs: Self) -> Self;

    /// `self` divided by a positive count.
    spec fn spec_over(self, count: u32) -> Self;

    /// `max(0, self)`.
    spec fn spec_relu(self) -> Self;

    /// The number is at least zero.
    spec fn is_nonnegative(self) -> bool;

    /// The number lies in `(0, 1]`.
    spec fn is_unit_weight(self) -> bool;

    /// The weight in `(0, 1]` that stands for a sample below `SAMPLE_LIMIT`.
    spec fn spec_from_sample(sample: u32) -> Self;

    /// Zero.
    fn zero() -> (r: Self)
        ensures
            r == Self::spec_zero(),
    ;

    /// One.
    fn one() -> (r: Self)
        ensures
            r == Self::spec_one(),
    ;

    /// Adds `rhs` to `self`.
    fn plus(self, rhs: Self) -> (r: Self)
        ensures
            r == self.spec_plus(rhs),
    ;

    /// Multiplies `self` by `rhs`.
    fn times(self, rhs: Self) -> (r: Self)
        ensures
            r == self.spec_times(rhs),
    ;

    /// Divides `self` by a positive count.
    fn over(self, count: u32) -> (r: Self)
        requires
            count > 0,
        ensures
            r == self.spec_over(count),
    ;

    /// The larger of zero and `self`; it is never negative.
    fn relu(self) -> (r: Self)
        ensures
            r == self.spec_relu(),
            r.is_nonnegative(),
    ;

    /// Turns a sample below `SAMPLE_LIMIT` into a weight in `(0, 1]`. Equal
    /// steps between samples should give equal steps between weights, so that
    /// uniformly drawn samples give uniformly drawn weights.
    fn from_sample(sample: u32) -> (r: Self)
        requires
            sample < SAMPLE_LIMIT,
        ensures
            r == Self::spec_from_sample(sample),
            r.is_unit_weight(),
    ;
}

/// The number of distinct samples from which a weight is made: `2^24`.
pub const SAMPLE_LIMIT: u32 = 16_777_216;

/// Integer cells. Sums and products wrap around as two's complement does,
/// division rounds towards zero, and the only weight in `(0, 1]` is one.
impl Scalar for i64 {
    open spec fn spec_zero() -> i64 {
        0
    }

    open spec fn spec_one() -> i64 {
        1
    }

    open spec fn spec_plus(self, rhs: i64) -> i64 {
        vstd::wrapping::i64_specs::wrapping_add(self, rhs)
    }

    open spec fn spec_times(self, rhs: i64) -> i64 {
        vstd::wrapping::i64_specs::wrapping_mul(self, rhs)
    }

    open spec fn spec_over(self, count: u32) -> i64 {
        if self >= 0 {
            ((self as int) / (count as int)) as i64
        } else {
            (-((-self) / (count as int))) as i64
        }
    }

    open spec fn spec_relu(self) -> i64 {
        if self > 0 {
            self
        } else {
            0
        }
    }

    open spec fn is_nonnegative(self) -> bool {
        self >= 0
    }

    open spec fn is_unit_weight(self) -> bool {
        self == 1
    }

    open spec fn spec_from_sample(sample: u32) -> i64 {
        1
    }

    fn zero() -> (r: i64) {
        0
    }

    fn one() -> (r: i64) {
        1
    }

    fn plus(self, rhs: i64) -> (r: i64) {
        self.wrapping_add(rhs)
    }

    fn times(self, rhs: i64) -> (r: i64) {
        self.wrapping_mul(rhs)
    }

    fn over(self, count: u32) -> (r: i64) {
        self / (count as i64)
    }

    fn relu(self) -> (r: i64) {
        if self > 0 {
            self
        } else {
            0
        }
    }

    fn from_sample(sample: u32) -> (r: i64) {
        1
    }
}

/// A number type whose arithmetic is exact: sums and products obey the laws
/// of a commutative ring, and zero divided by a count is zero. Rounding number
/// types do not qualify.
pub trait ExactScalar: Scalar {
    /// Sums do not depend on the order of their terms.
    proof fn plus_commutes(a: Self, b: Self)
        ensures
            a.spec_plus(b) == b.spec_plus(a),
    ;

    /// Sums do not depend on how their terms are grouped.
    proof fn plus_associates(a: Self, b: Self, c: Self)
        ensures
            a.spec_plus(b).spec_plus(c) == a.spec_plus(b.spec_plus(c)),
    ;

    /// Adding zero changes nothing.
    proof fn plus_zero(a: Self)
        ensures
            a.spec_plus(Self::spec_zero()) == a,
    ;

    /// Products do not depend on the order of their factors.
    proof fn times_commutes(a: Self, b: Self)
        ensures
            a.spec_times(b) == b.spec_times(a),
    ;

    /// Products do not depend on how their factors are grouped.
    proof fn times_associates(a: Self, b: Self, c: Self)
        ensures
            a.spec_times(b).spec_times(c) == a.spec_times(b.spec_times(c)),
    ;

    /// A product with a sum is the sum of the products.
    proof fn times_distributes(k: Self, a: Self, b: Self)
        ensures
            k.spec_times(a.spec_plus(b)) == k.spec_times(a).spec_plus(k.spec_times(b)),
    ;

    /// A product with zero is zero.
    proof fn times_zero(a: Self)
        ensures
            a.spec_times(Self::spec_zero()) == Self::spec_zero(),
    ;

    /// Zero divided by a positive count is zero.
    proof fn zero_over(count: u32)
        requires
            count > 0,
        ensures
            Self::spec_zero().spec_over(count) == Self::spec_zero(),
    ;
}

/// The number of values of an `i64`: `2^64`.
pub open spec fn word_range() -> int {
    0x1_0000_0000_0000_0000
}

/// The `i64` that an integer wraps to: the one that differs from it by a
/// multiple of `2^64`.
pub open spec fn wrapped(x: int) -> i64 {
    vstd::wrapping::i64_specs::signed_crop(x)
}

/// An integer and what it wraps to leave the same remainder.
proof fn lemma_wrapped_congruent(x: int)
    ensures
        (wrapped(x) as int) % word_range() == x % word_range(),
{
    let r = x % word_range();
    if r > i64::MAX {
        vstd::arithmetic::div_mod::lemma_mod_sub_multiples_vanish(r, word_range());
        vstd::arithmetic::div_mod::lemma_mod_twice(x, word_range());
    } else {
        vstd::arithmetic::div_mod::lemma_mod_twice(x, word_range());
    }
}

/// Integers that leave the same remainder wrap to the same `i64`.
proof fn lemma_wrapped_same(x: int, y: int)
    requires
        x % word_range() == y % word_range(),
    ensures
        wrapped(x) == wrapped(y),
{
}

/// A wrapping sum is the exact sum, wrapped.
proof fn lemma_plus_wraps(a: i64, b: i64)
    ensures
        a.spec_plus(b) == wrapped(a + b),
{
    let sum = a + b;
    if sum > i64::MAX {
        vstd::arithmetic::div_mod::lemma_small_mod(sum as nat, word_range() as nat);
    } else if sum < i64::MIN {
        vstd::arithmetic::div_mod::lemma_small_mod((sum + word_range()) as nat, word_range() as nat);
        vstd::arithmetic::div_mod::lemma_mod_add_multiples_vanish(sum, word_range());
    } else if sum >= 0 {
        vstd::arithmetic::div_mod::lemma_small_mod(sum as nat, word_range() as nat);
    } else {
        vstd::arithmetic::div_mod::lemma_small_mod((sum + word_range()) as nat, word_range() as nat);
        vstd::arithmetic::div_mod::lemma_mod_add_multiples_vanish(sum, word_range());
    }
}

/// Wrapping sums and products are those of the integers modulo `2^64`, which
/// form a commutative ring.
impl ExactScalar for i64 {
    proof fn plus_commutes(a: i64, b: i64) {
    }

    proof fn plus_associates(a: i64, b: i64, c: i64) {
        let m = word_range();
        lemma_plus_wraps(a, b);
        lemma_plus_wraps(b, c);
        lemma_plus_wraps(wrapped(a + b), c);
        lemma_plus_wraps(a, wrapped(b + c));
        lemma_wrapped_congruent(a + b);
        lemma_wrapped_congruent(b + c);
        vstd::arithmetic::div_mod::lemma_add_mod_noop(wrapped(a + b) as int, c as int, m);
        vstd::arithmetic::div_mod::lemma_add_mod_noop(a + b, c as int, m);
        vstd::arithmetic::div_mod::lemma_add_mod_noop(a as int, wrapped(b + c) as int, m);
        vstd::arithmetic::div_mod::lemma_add_mod_noop(a as int, b + c, m);
        lemma_wrapped_same(wrapped(a + b) + c, a + wrapped(b + c));
    }

    proof fn plus_zero(a: i64) {
    }

    proof fn times_commutes(a: i64, b: i64) {
        assert(a * b == b * a) by (nonlinear_arith);
    }

    proof fn times_associates(a: i64, b: i64, c: i64) {
        let m = word_range();
        lemma_wrapped_congruent(a * b);
        lemma_wrapped_congruent(b * c);
        vstd::arithmetic::div_mod::lemma_mul_mod_noop_general(wrapped(a * b) as int, c as int, m);
        vstd::arithmetic::div_mod::lemma_mul_mod_noop_general(a * b, c as int, m);
        vstd::arithmetic::div_mod::lemma_mul_mod_noop_general(a as int, wrapped(b * c) as int, m);
        vstd::arithmetic::div_mod::lemma_mul_mod_noop_general(a as int, b * c, m);
        assert((a * b) * c == a * (b * c)) by (nonlinear_arith);
        lemma_wrapped_same(wrapped(a * b) * c, a * wrapped(b * c));
    }

    proof fn times_distributes(k: i64, a: i64, b: i64) {
        let m = word_range();
        lemma_plus_wraps(a, b);
        lemma_plus_wraps(wrapped(k * a), wrapped(k * b));
        lemma_wrapped_congruent(a + b);
        lemma_wrapped_congruent(k * a);
        lemma_wrapped_congruent(k * b);
        vstd::arithmetic::div_mod::lemma_mul_mod_noop_general(k as int, wrapped(a + b) as int, m);
        vstd::arithmetic::div_mod::lemma_mul_mod_noop_general(k as int, a + b, m);
        vstd::arithmetic::div_mod::lemma_add_mod_noop(
            wrapped(k * a) as int,
            wrapped(k * b) as int,
            m,
        );
        vstd::arithmetic::div_mod::lemma_add_mod_noop(k * a, k * b, m);
        assert(k * (a + b) == k * a + k * b) by (nonlinear_arith);
        lemma_wrapped_same(k * wrapped(a + b), wrapped(k * a) + wrapped(k * b));
    }

    proof fn times_zero(a: i64) {
        assert(a * 0 == 0) by (nonlinear_arith);
    }

    proof fn zero_over(count: u32) {
    }
}

} // verus!
