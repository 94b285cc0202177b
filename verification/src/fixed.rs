//! A carrier with six decimal places in a 64-bit integer.
use crate::scalar::{has_exact_units, Scalar};
use vstd::prelude::*;

verus! {

/// How many raw units make one.
pub const SCALE: i64 = 1_000_000;

/// The nearest raw value to `x`: `x` itself where it fits, else the end of the
/// range on its side.
pub open spec fn saturate(x: int) -> i64 {
    if x > i64::MAX {
        i64::MAX
    } else if x < i64::MIN {
        i64::MIN
    } else {
        x as i64
    }
}

/// The quotient of `a` by a positive `b`, rounded towards zero.
pub open spec fn truncated_quotient(a: int, b: int) -> int
    recommends
        b > 0,
{
    if a >= 0 {
        a / b
    } else {
        -((-a) / b)
    }
}

/// The quotient of `a` by a `b` other than zero, rounded towards zero.
pub open spec fn signed_quotient(a: int, b: int) -> int
    recommends
        b != 0,
{
    if b > 0 {
        truncated_quotient(a, b)
    } else {
        truncated_quotient(-a, -b)
    }
}

proof fn lemma_quotient_within(a: int, b: int)
    requires
        b > 0,
    ensures
        a >= 0 ==> 0 <= truncated_quotient(a, b) <= a,
        a <= 0 ==> a <= truncated_quotient(a, b) <= 0,
{
    if a >= 0 {
        assert(0 <= a / b <= a) by (nonlinear_arith)
            requires
                a >= 0,
                b > 0,
        ;
    } else {
        assert(0 <= (-a) / b <= -a) by (nonlinear_arith)
            requires
                -a >= 0,
                b > 0,
        ;
    }
}

/// A fixed-point number: `raw` millionths. Sums, differences, products and
/// quotients that leave the range stop at its ends; products and quotients are
/// rounded towards zero.
#[derive(Clone, Copy, Debug, PartialEq, Eq, Structural)]
pub struct Fixed {
    pub raw: i64,
}

fn saturate_wide(x: i128) -> (r: i64)
    ensures
        r == saturate(x as int),
{
    if x > i64::MAX as i128 {
        i64::MAX
    } else if x < i64::MIN as i128 {
        i64::MIN
    } else {
        x as i64
    }
}

fn scale_up(raw: i64) -> (scaled: i128)
    ensures
        scaled == raw * SCALE,
{
    (raw as i128) * 1_000_000
}

impl Fixed {
    /// The number of `raw` millionths.
    pub fn from_raw(raw: i64) -> (r: Self)
        ensures
            r.raw == raw,
    {
        Fixed { raw }
    }

    /// The whole number `units`, or the end of the range where it does not fit.
    pub fn from_units(units: i64) -> (r: Self)
        ensures
            r.raw == saturate(units * SCALE),
    {
        Fixed { raw: saturate_wide(scale_up(units)) }
    }

    /// The millionths this number holds.
    pub fn raw(&self) -> (raw: i64)
        ensures
            raw == self.raw,
    {
        self.raw
    }
}

impl Scalar for Fixed {
    open spec fn zero_spec() -> Self {
        Fixed { raw: 0 }
    }

    open spec fn one_spec() -> Self {
        Fixed { raw: SCALE }
    }

    open spec fn tolerance_spec() -> Self {
        Fixed { raw: 1 }
    }

    open spec fn from_count_spec(count: usize) -> Self {
        Fixed { raw: saturate(count * SCALE) }
    }

    open spec fn plus_spec(self, rhs: Self) -> Self {
        Fixed { raw: saturate(self.raw + rhs.raw) }
    }

    open spec fn minus_spec(self, rhs: Self) -> Self {
        Fixed { raw: saturate(self.raw - rhs.raw) }
    }

    open spec fn times_spec(self, rhs: Self) -> Self {
        Fixed { raw: saturate(truncated_quotient(self.raw * rhs.raw, SCALE as int)) }
    }

    open spec fn over_spec(self, rhs: Self) -> Self {
        if rhs.raw != 0 {
            Fixed { raw: saturate(signed_quotient(self.raw * SCALE, rhs.raw as int)) }
        } else if self.raw > 0 {
            Fixed { raw: i64::MAX }
        } else if self.raw < 0 {
            Fixed { raw: i64::MIN }
        } else {
            Fixed { raw: 0 }
        }
    }

    open spec fn key_spec(self) -> i64 {
        self.raw
    }

    open spec fn scale_spec(self, bound: usize) -> usize {
        if self.raw <= 0 {
            0
        } else if (self.raw * bound) / (SCALE as int) > usize::MAX {
            usize::MAX
        } else {
            ((self.raw * bound) / (SCALE as int)) as usize
        }
    }

    fn zero() -> (r: Self) {
        Fixed { raw: 0 }
    }

    fn one() -> (r: Self) {
        Fixed { raw: SCALE }
    }

    fn tolerance() -> (r: Self) {
        Fixed { raw: 1 }
    }

    fn from_count(count: usize) -> (r: Self) {
        Fixed { raw: saturate_wide((count as i128) * 1_000_000) }
    }

    fn plus(self, rhs: Self) -> (r: Self) {
        Fixed { raw: saturate_wide((self.raw as i128) + (rhs.raw as i128)) }
    }

    fn minus(self, rhs: Self) -> (r: Self) {
        Fixed { raw: saturate_wide((self.raw as i128) - (rhs.raw as i128)) }
    }

    fn times(self, rhs: Self) -> (r: Self) {
        assert(-0x4000_0000_0000_0000_0000_0000_0000_0000 <= self.raw * rhs.raw
            <= 0x4000_0000_0000_0000_0000_0000_0000_0000) by (nonlinear_arith)
            requires
                -0x8000_0000_0000_0000 <= self.raw <= 0x8000_0000_0000_0000,
                -0x8000_0000_0000_0000 <= rhs.raw <= 0x8000_0000_0000_0000,
        ;
        let product: i128 = (self.raw as i128) * (rhs.raw as i128);
        Fixed { raw: saturate_wide(product / 1_000_000) }
    }

    fn over(self, rhs: Self) -> (r: Self) {
        if rhs.raw > 0 {
            let scaled: i128 = scale_up(self.raw);
            proof {
                lemma_quotient_within(scaled as int, rhs.raw as int);
            }
            Fixed { raw: saturate_wide(scaled / (rhs.raw as i128)) }
        } else if rhs.raw < 0 {
            let scaled: i128 = -scale_up(self.raw);
            proof {
                lemma_quotient_within(scaled as int, -rhs.raw);
            }
            Fixed { raw: saturate_wide(scaled / (-(rhs.raw as i128))) }
        } else if self.raw > 0 {
            Fixed { raw: i64::MAX }
        } else if self.raw < 0 {
            Fixed { raw: i64::MIN }
        } else {
            Fixed { raw: 0 }
        }
    }

    fn key(self) -> (k: i64) {
        self.raw
    }

    fn scale(self, bound: usize) -> (i: usize) {
        if self.raw <= 0 {
            0
        } else {
            assert(0 <= self.raw * bound <= 0x8000_0000_0000_0000 * 0x1_0000_0000_0000_0000)
                by (nonlinear_arith)
                requires
                    0 <= self.raw <= 0x8000_0000_0000_0000,
                    0 <= bound <= 0x1_0000_0000_0000_0000,
            ;
            let product: u128 = (self.raw as u128) * (bound as u128);
            let whole: u128 = product / 1_000_000;
            proof {
                if 0 <= self.raw < SCALE && bound > 0 {
                    assert(self.raw * bound < SCALE * bound) by (nonlinear_arith)
                        requires
                            self.raw < SCALE,
                            bound > 0,
                    ;
                    assert((self.raw * bound) / (SCALE as int) < bound) by (nonlinear_arith)
                        requires
                            0 <= self.raw * bound < SCALE * bound,
                            SCALE == 1_000_000,
                    ;
                }
            }
            if whole > usize::MAX as u128 {
                usize::MAX
            } else {
                whole as usize
            }
        }
    }
}

/// Zero and one are exactly neutral in fixed-point arithmetic.
pub proof fn lemma_fixed_has_exact_units()
    ensures
        has_exact_units::<Fixed>(),
{
    assert forall|x: Fixed| #[trigger] Fixed::one_spec().times_spec(x) == x by {
        assert(truncated_quotient(SCALE * x.raw, SCALE as int) == x.raw) by (nonlinear_arith)
            requires
                SCALE == 1_000_000,
        ;
    }
}

} // verus!
