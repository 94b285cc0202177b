//! The numeric carrier of values, rewards and probabilities.
use vstd::prelude::*;

verus! {

/// A number type the estimators can compute with.
///
/// Each operation comes twice: as a mathematical function (`*_spec`), which the
/// contracts of the library speak of, and as the executable operation, which
/// returns exactly what its mathematical function says. An operation is total:
/// a carrier decides for itself what an overflow or a division by zero gives.
pub trait Scalar: Sized + Copy {
    /// The additive neutral element.
    spec fn zero_spec() -> Self;

    /// The multiplicative neutral element.
    spec fn one_spec() -> Self;

    /// The distance between one and the next larger number of the carrier.
    spec fn tolerance_spec() -> Self;

    /// The number that stands for a count.
    spec fn from_count_spec(count: usize) -> Self;

    /// The sum of two numbers.
    spec fn plus_spec(self, rhs: Self) -> Self;

    /// The difference of two numbers.
    spec fn minus_spec(self, rhs: Self) -> Self;

    /// The product of two numbers.
    spec fn times_spec(self, rhs: Self) -> Self;

    /// The quotient of two numbers.
    spec fn over_spec(self, rhs: Self) -> Self;

    /// An integer that orders the carrier: `a` comes before `b` exactly when the
    /// key of `a` is smaller than the key of `b`.
    spec fn key_spec(self) -> i64;

    /// The whole part of `self` times `bound`.
    spec fn scale_spec(self, bound: usize) -> usize;

    fn zero() -> (r: Self)
        ensures
            r == Self::zero_spec(),
    ;

    fn one() -> (r: Self)
        ensures
            r == Self::one_spec(),
    ;

    fn tolerance() -> (r: Self)
        ensures
            r == Self::tolerance_spec(),
    ;

    fn from_count(count: usize) -> (r: Self)
        ensures
            r == Self::from_count_spec(count),
    ;

    fn plus(self, rhs: Self) -> (r: Self)
        ensures
            r == self.plus_spec(rhs),
    ;

    fn minus(self, rhs: Self) -> (r: Self)
        ensures
            r == self.minus_spec(rhs),
    ;

    fn times(self, rhs: Self) -> (r: Self)
        ensures
            r == self.times_spec(rhs),
    ;

    fn over(self, rhs: Self) -> (r: Self)
        ensures
            r == self.over_spec(rhs),
    ;

    fn key(self) -> (k: i64)
        ensures
            k == self.key_spec(),
    ;

    /// Scales a number of the unit interval to an index below `bound`.
    fn scale(self, bound: usize) -> (i: usize)
        ensures
            i == self.scale_spec(bound),
            Self::zero_spec().key_spec() <= self.key_spec() < Self::one_spec().key_spec() && bound
                > 0 ==> i < bound,
    ;
}

/// `x` lies in `[0, 1)`.
pub open spec fn in_unit_interval<V: Scalar>(x: V) -> bool {
    V::zero_spec().key_spec() <= x.key_spec() < V::one_spec().key_spec()
}

/// `a` comes strictly before `b` in the carrier's order.
pub open spec fn precedes<V: Scalar>(a: V, b: V) -> bool {
    a.key_spec() < b.key_spec()
}

/// The square of `x`.
pub open spec fn squared<V: Scalar>(x: V) -> V {
    x.times_spec(x)
}

/// Zero and one are neutral in the carrier, exactly: zero times anything is zero,
/// one times anything is that thing, and adding zero on either side changes
/// nothing. A carrier with values that swallow a zero (an infinity, say) does not
/// have this property.
pub open spec fn has_exact_units<V: Scalar>() -> bool {
    &&& forall|x: V| #[trigger] V::zero_spec().times_spec(x) == V::zero_spec()
    &&& forall|x: V| #[trigger] V::one_spec().times_spec(x) == x
    &&& forall|x: V| #[trigger] V::zero_spec().plus_spec(x) == x
    &&& forall|x: V| #[trigger] x.plus_spec(V::zero_spec()) == x
    &&& forall|x: V| #[trigger] x.times_spec(V::zero_spec()) == V::zero_spec()
}

/// Whether `a` comes strictly before `b`.
pub fn less_than<V: Scalar>(a: V, b: V) -> (r: bool)
    ensures
        r == precedes(a, b),
{
    a.key() < b.key()
}

/// The square of `x`, by the carrier's product.
pub fn square<V: Scalar>(x: V) -> (r: V)
    ensures
        r == squared(x),
{
    x.times(x)
}

} // verus!
