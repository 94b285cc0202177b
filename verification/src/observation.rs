//! What an agent sees of its environment.
use vstd::prelude::*;

verus! {

/// The part of an environment that is visible to an agent. Where the
/// environment hides nothing, it is the environment's state.
pub trait Observation: Sized {

}

/// An observation out of a finite, fixed enumeration.
///
/// The enumeration is a closed world: every value of the type has a place in it,
/// and the places `0 .. count` are all taken.
pub trait DiscreteObservation: Observation + Copy {
    /// How many observations there are.
    spec fn count_spec() -> usize;

    /// The place of this observation in the enumeration.
    spec fn index_spec(&self) -> usize;

    /// The observation at a place of the enumeration.
    spec fn from_index_spec(index: usize) -> Self;

    fn count() -> (n: usize)
        ensures
            n == Self::count_spec(),
    ;

    fn index(&self) -> (i: usize)
        ensures
            i == self.index_spec(),
            i < Self::count_spec(),
    ;

    fn from_index(index: usize) -> (observation: Self)
        requires
            index < Self::count_spec(),
        ensures
            observation == Self::from_index_spec(index),
            observation.index_spec() == index,
    ;
}

/// An observation out of a continuum.
pub trait ContinuousObservation: Observation {

}

} // verus!
