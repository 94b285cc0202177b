//! The condition an environment is in.
use vstd::prelude::*;

verus! {

/// The state of an environment.
pub trait State: Sized {

}

/// A state out of a finite, fixed enumeration.
pub trait DiscreteState: State + Copy {
    /// How many states there are.
    spec fn count_spec() -> usize;

    /// The state at a place of the enumeration.
    spec fn from_index_spec(index: usize) -> Self;

    fn count() -> (n: usize)
        ensures
            n == Self::count_spec(),
    ;

    fn from_index(index: usize) -> (state: Self)
        requires
            index < Self::count_spec(),
        ensures
            state == Self::from_index_spec(index),
    ;
}

/// A state out of a continuum.
pub trait ContinuousState: State {

}

} // verus!
