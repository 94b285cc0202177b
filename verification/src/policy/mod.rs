//! How an agent decides.
use crate::action::DiscreteAction;
use crate::observation::DiscreteObservation;
use crate::random_number_generator::RandomNumberGeneratorFacade;
use crate::reinforcement_learning::{lemma_row_in_table, table_len};
use crate::scalar::{in_unit_interval, less_than, precedes, Scalar};
use std::marker::PhantomData;
use vstd::prelude::*;

pub mod epsilon_greedy;

verus! {

/// A rule that maps each observation to an action and that can be improved
/// from a table of action values.
pub trait Policy: Sized {
    type Action: DiscreteAction;

    type Observation: DiscreteObservation;

    /// The carrier of values.
    type Value: Scalar;

    /// The action to take at `observation`.
    fn act(&self, observation: &Self::Observation) -> Self::Action;

    /// Adjusts the rule at every observation to `action_values`.
    fn policy_improvemnt(&mut self, action_values: &Vec<Self::Value>)
        requires
            action_values@.len() == table_len::<Self::Observation, Self::Action>(),
    ;

    /// Adjusts the rule at `observation` alone to `action_values`.
    fn policy_improvemnt_at(
        &mut self,
        observation: &Self::Observation,
        action_values: &Vec<Self::Value>,
    )
        requires
            action_values@.len() == table_len::<Self::Observation, Self::Action>(),
    ;
}

/// The place of the largest value of `row`; of several largest values, the
/// first. A row is read from left to right, and a later value replaces the best
/// one so far only if it is strictly larger.
pub open spec fn first_maximum<V: Scalar>(row: Seq<V>) -> int
    decreases row.len(),
{
    if row.len() <= 1 {
        0
    } else {
        let best = first_maximum(row.drop_last());
        if precedes(row[best], row.last()) {
            row.len() - 1
        } else {
            best
        }
    }
}

/// The values of the actions at one observation: a row of the table.
pub open spec fn action_row<V>(action_values: Seq<V>, observation: int, actions: int) -> Seq<V> {
    action_values.subrange(observation * actions, observation * actions + actions)
}

/// The action that is worth most at `observation`.
pub open spec fn greedy_action<A: DiscreteAction, V: Scalar>(
    action_values: Seq<V>,
    observation: int,
) -> A {
    A::from_index_spec(
        first_maximum(action_row(action_values, observation, A::count_spec() as int)) as usize,
    )
}

/// The policy that takes the most valuable action at each of `observations`
/// observations.
pub open spec fn greedy_table<A: DiscreteAction, V: Scalar>(
    action_values: Seq<V>,
    observations: nat,
) -> Seq<A> {
    Seq::new(observations, |o: int| greedy_action::<A, V>(action_values, o))
}

/// The first maximum is a place of the row, nothing in the row is larger than
/// the value there, and everything before it is strictly smaller.
pub proof fn lemma_first_maximum<V: Scalar>(row: Seq<V>)
    requires
        row.len() > 0,
    ensures
        0 <= first_maximum(row) < row.len(),
        forall|k: int|
            0 <= k < row.len() ==> (#[trigger] row[k]).key_spec() <= row[first_maximum(
                row,
            )].key_spec(),
        forall|k: int|
            0 <= k < first_maximum(row) ==> precedes(#[trigger] row[k], row[first_maximum(row)]),
    decreases row.len(),
{
    if row.len() > 1 {
        let front = row.drop_last();
        lemma_first_maximum(front);
        let best = first_maximum(front);
        assert forall|k: int| 0 <= k < row.len() implies (#[trigger] row[k]).key_spec()
            <= row[first_maximum(row)].key_spec() by {
            if k < front.len() {
                assert(front[k].key_spec() <= front[best].key_spec());
            }
        }
        assert forall|k: int| 0 <= k < first_maximum(row) implies precedes(
            #[trigger] row[k],
            row[first_maximum(row)],
        ) by {
            if k < best {
                assert(precedes(front[k], front[best]));
            }
        }
    }
}

/// Improving a policy twice in a row from the same values changes nothing the
/// second time: what an improvement leaves behind depends on the values alone.
///
/// `once` is the table after the first improvement, `twice` the table after
/// the second.
pub proof fn lemma_policy_improvement_idempotent<A: DiscreteAction, V: Scalar>(
    action_values: Seq<V>,
    observations: nat,
    once: Seq<A>,
    twice: Seq<A>,
)
    requires
        once == greedy_table::<A, V>(action_values, observations),
        twice == greedy_table::<A, V>(action_values, observations),
    ensures
        twice == once,
{
}

/// Improving a policy twice in a row at one observation from the same values
/// changes nothing the second time.
pub proof fn lemma_policy_improvement_at_idempotent<A: DiscreteAction, V: Scalar>(
    action_values: Seq<V>,
    observation: int,
    before: Seq<A>,
    once: Seq<A>,
    twice: Seq<A>,
)
    requires
        0 <= observation < before.len(),
        once == before.update(observation, greedy_action::<A, V>(action_values, observation)),
        twice == once.update(observation, greedy_action::<A, V>(action_values, observation)),
    ensures
        twice == once,
{
}

/// The action that is worth most at the observation of place `observation`.
pub fn best_action<A: DiscreteAction, V: Scalar>(
    action_values: &Vec<V>,
    observation: usize,
) -> (a: A)
    requires
        A::count_spec() > 0,
        observation * A::count_spec() + A::count_spec() <= action_values@.len(),
    ensures
        a == greedy_action::<A, V>(action_values@, observation as int),
        a.index_spec() == first_maximum(
            action_row(action_values@, observation as int, A::count_spec() as int),
        ),
{
    let n = A::count();
    let len = action_values.len();
    assert(0 <= observation * n) by (nonlinear_arith)
        requires
            0 <= observation,
            0 <= n,
    ;
    let base = observation * n;
    let ghost row = action_row(action_values@, observation as int, n as int);
    let mut best: usize = 0;
    let mut j: usize = 1;
    while j < n
        invariant
            1 <= j <= n,
            n == A::count_spec(),
            base == observation * n,
            base + n <= len,
            len == action_values@.len(),
            row == action_row(action_values@, observation as int, n as int),
            0 <= best < j,
            best == first_maximum(row.subrange(0, j as int)),
        decreases n - j,
    {
        proof {
            assert(row.subrange(0, j + 1).drop_last() == row.subrange(0, j as int));
        }
        if less_than(action_values[base + best], action_values[base + j]) {
            best = j;
        }
        j = j + 1;
    }
    proof {
        assert(row.subrange(0, n as int) == row);
        lemma_first_maximum(row);
    }
    A::from_index(best)
}

/// The most valuable action at every observation.
pub fn greedy_actions<A: DiscreteAction, S: DiscreteObservation, V: Scalar>(
    action_values: &Vec<V>,
) -> (actions: Vec<A>)
    requires
        A::count_spec() > 0,
        action_values@.len() == table_len::<S, A>(),
    ensures
        actions@ == greedy_table::<A, V>(action_values@, S::count_spec() as nat),
{
    let observations = S::count();
    let mut actions: Vec<A> = Vec::new();
    let mut o: usize = 0;
    while o < observations
        invariant
            0 <= o <= observations,
            observations == S::count_spec(),
            A::count_spec() > 0,
            action_values@.len() == table_len::<S, A>(),
            actions@.len() == o,
            forall|k: int|
                0 <= k < o ==> #[trigger] actions@[k] == greedy_action::<A, V>(action_values@, k),
        decreases observations - o,
    {
        proof {
            lemma_row_in_table(o as int, S::count_spec() as int, A::count_spec() as int);
        }
        let a = best_action::<A, V>(action_values, o);
        actions.push(a);
        o = o + 1;
    }
    actions
}

/// The action that a draw from the unit interval selects: all actions are
/// equally likely under a uniform draw.
pub fn random_action<A: DiscreteAction, V: Scalar>(draw: V) -> (a: A)
    requires
        in_unit_interval(draw),
        A::count_spec() > 0,
    ensures
        a == A::from_index_spec(draw.scale_spec(A::count_spec())),
        a.index_spec() == draw.scale_spec(A::count_spec()),
        a.index_spec() < A::count_spec(),
{
    A::from_index(draw.scale(A::count()))
}

/// An action that `table` can hold: one of the enumeration.
pub open spec fn is_enumerated<A: DiscreteAction>(action: A) -> bool {
    exists|i: usize| i < A::count_spec() && action == #[trigger] A::from_index_spec(i)
}

/// An action that some draw from the unit interval selects.
pub open spec fn is_drawn<A: DiscreteAction, V: Scalar>(action: A) -> bool {
    exists|draw: V|
        in_unit_interval(draw) && action == #[trigger] A::from_index_spec(
            draw.scale_spec(A::count_spec()),
        )
}

/// One random action for every observation, each drawn afresh from `rng`.
pub fn random_start<A: DiscreteAction, S: DiscreteObservation, R: RandomNumberGeneratorFacade>(
    rng: &R,
) -> (actions: Vec<A>)
    requires
        A::count_spec() > 0,
    ensures
        actions@.len() == S::count_spec(),
        forall|o: int| 0 <= o < actions@.len() ==> is_enumerated(#[trigger] actions@[o]),
        forall|o: int|
            0 <= o < actions@.len() ==> is_drawn::<A, R::Value>(#[trigger] actions@[o]),
{
    let observations = S::count();
    let mut actions: Vec<A> = Vec::new();
    let mut o: usize = 0;
    while o < observations
        invariant
            0 <= o <= observations,
            observations == S::count_spec(),
            A::count_spec() > 0,
            actions@.len() == o,
            forall|k: int| 0 <= k < o ==> is_enumerated(#[trigger] actions@[k]),
            forall|k: int| 0 <= k < o ==> is_drawn::<A, R::Value>(#[trigger] actions@[k]),
        decreases observations - o,
    {
        let draw = rng.random();
        let a = random_action::<A, R::Value>(draw);
        assert(is_enumerated(a));
        assert(is_drawn::<A, R::Value>(a));
        actions.push(a);
        o = o + 1;
    }
    actions
}

/// A policy that always takes the action it holds for an observation.
pub struct Greedy<A: DiscreteAction, S: DiscreteObservation, V: Scalar> {
    observation_action_mapping: Vec<A>,
    observation_phantom: PhantomData<S>,
    value_phantom: PhantomData<V>,
}

impl<A: DiscreteAction, S: DiscreteObservation, V: Scalar> Greedy<A, S, V> {
    #[verifier::type_invariant]
    spec fn well_formed(self) -> bool {
        &&& self.observation_action_mapping@.len() == S::count_spec()
        &&& A::count_spec() > 0
    }

    /// The action held for each observation, in the order of the observations.
    pub closed spec fn view(&self) -> Seq<A> {
        self.observation_action_mapping@
    }

    /// A policy that starts with a random action at every observation.
    #[must_use]
    pub fn new<R: RandomNumberGeneratorFacade>(start_state_randomizer: &R) -> (policy: Self)
        requires
            A::count_spec() > 0,
        ensures
            policy@.len() == S::count_spec(),
            forall|o: int| 0 <= o < policy@.len() ==> is_enumerated(#[trigger] policy@[o]),
            forall|o: int|
                0 <= o < policy@.len() ==> is_drawn::<A, R::Value>(#[trigger] policy@[o]),
    {
        Self {
            observation_action_mapping: random_start::<A, S, R>(start_state_randomizer),
            observation_phantom: PhantomData,
            value_phantom: PhantomData,
        }
    }
}

impl<A: DiscreteAction, S: DiscreteObservation, V: Scalar> Policy for Greedy<A, S, V> {
    type Action = A;

    type Observation = S;

    type Value = V;

    fn act(&self, observation: &S) -> (action: A)
        ensures
            action == self@[observation.index_spec() as int],
    {
        proof {
            use_type_invariant(self);
        }
        self.observation_action_mapping[observation.index()]
    }

    fn policy_improvemnt(&mut self, action_values: &Vec<V>)
        ensures
            final(self)@ == greedy_table::<A, V>(action_values@, S::count_spec() as nat),
    {
        proof {
            use_type_invariant(&*self);
        }
        self.observation_action_mapping = greedy_actions::<A, S, V>(action_values);
    }

    fn policy_improvemnt_at(&mut self, observation: &S, action_values: &Vec<V>)
        ensures
            final(self)@ == old(self)@.update(
                observation.index_spec() as int,
                greedy_action::<A, V>(action_values@, observation.index_spec() as int),
            ),
    {
        proof {
            use_type_invariant(&*self);
        }
        let o = observation.index();
        proof {
            lemma_row_in_table(o as int, S::count_spec() as int, A::count_spec() as int);
        }
        let best = best_action::<A, V>(action_values, o);
        self.observation_action_mapping[o] = best;
    }
}

} // verus!
