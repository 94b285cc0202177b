//! Where the randomness comes from.
use crate::scalar::{in_unit_interval, Scalar};
use vstd::prelude::*;

verus! {

/// A source of random numbers.
pub trait RandomNumberGeneratorFacade {
    /// The carrier of the numbers.
    type Value: Scalar;

    /// A number of the unit interval `[0, 1)`. Two calls need not agree.
    fn random(&self) -> (r: Self::Value)
        ensures
            in_unit_interval(r),
    ;
}

} // verus!
