use vstd::prelude::*;

verus! {

/// A lane value together with the two operations that the update needs.
///
/// `sum`, `product` and `zero_value` give the meaning of `plus`, `times` and
/// `zero`. Each operation is a function of its arguments alone, so that the
/// same operands give the same lane wherever it is stored. An implementation
/// in code that is not verified gives the three of them the bodies of
/// `plus`, `times` and `zero`.
pub trait Scalar: Copy + Sized {
    /// The value that `plus` returns.
    spec fn sum(self, rhs: Self) -> Self;

    /// The value that `times` returns.
    spec fn product(self, rhs: Self) -> Self;

    /// The value that `zero` returns.
    spec fn zero_value() -> Self;

    fn plus(self, rhs: Self) -> (r: Self)
        ensures
            r == self.sum(rhs),
    ;

    fn times(self, rhs: Self) -> (r: Self)
        ensures
            r == self.product(rhs),
    ;

    fn zero() -> (r: Self)
        ensures
            r == Self::zero_value(),
    ;
}

/// Signed 32-bit lanes with wrapping sums and products.
impl Scalar for i32 {
    open spec fn sum(self, rhs: Self) -> Self {
        vstd::wrapping::i32_specs::wrapping_add(self, rhs)
    }

    open spec fn product(self, rhs: Self) -> Self {
        vstd::wrapping::i32_specs::wrapping_mul(self, rhs)
    }

    open spec fn zero_value() -> Self {
        0i32
    }

    fn plus(self, rhs: Self) -> (r: Self) {
        self.wrapping_add(rhs)
    }

    fn times(self, rhs: Self) -> (r: Self) {
        self.wrapping_mul(rhs)
    }

    fn zero() -> (r: Self) {
        0i32
    }
}

/// A scalar whose arithmetic is exact: sums and products obey the laws of
/// a ring, with nothing lost to rounding.
pub trait ExactScalar: Scalar {
    /// Zero times anything is zero.
    proof fn lemma_zero_product(rate: Self)
        ensures
            Self::zero_value().product(rate) == Self::zero_value(),
    ;

    /// Adding zero changes nothing.
    proof fn lemma_sum_zero(value: Self)
        ensures
            value.sum(Self::zero_value()) == value,
    ;

    /// Sums may be regrouped.
    proof fn lemma_sum_regroups(a: Self, b: Self, c: Self)
        ensures
            a.sum(b).sum(c) == a.sum(b.sum(c)),
    ;

    /// A product with a sum on the left is the sum of the products.
    proof fn lemma_product_distributes(a: Self, b: Self, rate: Self)
        ensures
            a.sum(b).product(rate) == a.product(rate).sum(b.product(rate)),
    ;
}

/// The distance between two integers that wrap to the same 32-bit value.
pub open spec fn span32() -> int {
    0x1_0000_0000
}

/// Cropping an integer to 32 bits moves it by a whole number of spans.
pub proof fn lemma_crop_moves_by_spans(x: int) -> (m: int)
    ensures
        vstd::wrapping::i32_specs::signed_crop(x) == x + m * span32(),
{
    vstd::arithmetic::div_mod::lemma_fundamental_div_mod(x, span32());
    let q = x / span32();
    if x % span32() > i32::MAX as int {
        assert(x % span32() - span32() == x + (-q - 1) * span32()) by (nonlinear_arith)
            requires
                x == span32() * q + x % span32(),
        ;
        -q - 1
    } else {
        assert(x % span32() == x + (-q) * span32()) by (nonlinear_arith)
            requires
                x == span32() * q + x % span32(),
        ;
        -q
    }
}

/// The only 32-bit value a whole number of spans away from `x` is `x`
/// cropped.
pub proof fn lemma_crop_unique(x: int, y: i32, m: int)
    requires
        y == x + m * span32(),
    ensures
        vstd::wrapping::i32_specs::signed_crop(x) == y,
{
    let k = lemma_crop_moves_by_spans(x);
    let c = vstd::wrapping::i32_specs::signed_crop(x);
    assert(c - y == (k - m) * span32()) by (nonlinear_arith)
        requires
            c == x + k * span32(),
            y == x + m * span32(),
    ;
    assert(k - m == 0) by (nonlinear_arith)
        requires
            c - y == (k - m) * span32(),
            -span32() < c - y < span32(),
            span32() == 0x1_0000_0000,
    ;
}

/// A wrapping sum is the plain sum moved by a whole number of spans.
pub proof fn lemma_sum_moves_by_spans(a: i32, b: i32) -> (m: int)
    ensures
        a.sum(b) == a + b + m * span32(),
{
    if a + b > i32::MAX {
        -1
    } else if a + b < i32::MIN {
        1
    } else {
        0
    }
}

impl ExactScalar for i32 {
    proof fn lemma_zero_product(rate: Self) {
        assert(0 * rate == 0) by (nonlinear_arith);
        lemma_crop_unique(0 * rate, 0i32, 0);
    }

    proof fn lemma_sum_zero(value: Self) {
    }

    proof fn lemma_sum_regroups(a: Self, b: Self, c: Self) {
    }

    proof fn lemma_product_distributes(a: Self, b: Self, rate: Self) {
        let k = lemma_sum_moves_by_spans(a, b);
        let left = a.product(rate);
        let right = b.product(rate);
        let ml = lemma_crop_moves_by_spans(a * rate);
        let mr = lemma_crop_moves_by_spans(b * rate);
        let ks = lemma_sum_moves_by_spans(left, right);
        let whole = left.sum(right);
        assert(whole == a.sum(b) * rate + (ml + mr + ks - k * rate) * span32())
            by (nonlinear_arith)
            requires
                a.sum(b) == a + b + k * span32(),
                left == a * rate + ml * span32(),
                right == b * rate + mr * span32(),
                whole == left + right + ks * span32(),
        ;
        lemma_crop_unique(a.sum(b) * rate, whole, ml + mr + ks - k * rate);
    }
}

/// One lane after a step of length `dt` at rate `rate`: the product is
/// rounded first, the sum second, in that order on every path.
pub open spec fn advance<S: Scalar>(value: S, dt: S, rate: S) -> S {
    value.sum(dt.product(rate))
}

/// Computes `value + dt * rate` on one lane.
pub fn scale_add<S: Scalar>(value: S, dt: S, rate: S) -> (r: S)
    ensures
        r == advance(value, dt, rate),
{
    value.plus(dt.times(rate))
}

} // verus!
