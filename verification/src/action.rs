//! What an agent can do.
use vstd::prelude::*;

verus! {

/// A choice that an agent can make.
pub trait Action: Sized {

}

/// An action out of a finite, fixed enumeration.
///
/// The enumeration is a closed world: every value of the type has a place in it,
/// and the places `0 .. count` are all taken.
pub trait DiscreteAction: Action + Copy {
    /// How many actions there are.
    spec fn count_spec() -> usize;

    /// The place of this action in the enumeration.
    spec fn index_spec(&self) -> usize;

    /// The action at a place of the enumeration.
    spec fn from_index_spec(index: usize) -> Self;

    fn count() -> (n: usize)
        ensures
            n == Self::count_spec(),
    ;

    fn index(&self) -> (i: usize)
        ensures
            i == self.index_spec(),
            i < Self::count_spec(),
    ;

    fn from_index(index: usize) -> (action: Self)
        requires
            index < Self::count_spec(),
        ensures
            action == Self::from_index_spec(index),
            action.index_spec() == index,
    ;
}

/// An action out of a continuum.
pub trait ContinuousAction: Action {

}

} // verus!
