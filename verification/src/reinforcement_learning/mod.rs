//! Estimating what actions are worth, and improving a policy with the estimate.
use crate::action::{Action, DiscreteAction};
use crate::agent::Agent;
use crate::environment::{Environment, EpisodicEnvironment};
use crate::observation::{DiscreteObservation, Observation};
use crate::scalar::{has_exact_units, less_than, Scalar};
use crate::trajectory::{is_episode, rewards_of, Trajectory};
use vstd::prelude::*;

pub mod monte_carlo;
pub mod temporal_difference;

verus! {

/// How many episodes the convergence window looks back on.
pub const CONVERGENCE_WINDOW: usize = 5;

/// What a policy search has learned.
pub struct Estimate<V: Scalar> {
    /// How many episodes were run.
    pub episodes: usize,
    /// The value of each action at each observation, laid out by `tabular_index`.
    pub action_values: Vec<V>,
    /// How often each action was taken at each observation; empty where the
    /// estimator counts no visits.
    pub visit_count: Vec<usize>,
    /// Whether the search ended because the values had stopped moving.
    pub converged: bool,
    /// The variations of the last episodes.
    pub variations: ConvergenceWindow<V>,
}

/// An algorithm that estimates action values from episodes and improves the
/// agent's policy with them.
pub trait PolicyEstimator: Sized {
    type Environment: EpisodicEnvironment;

    /// The largest number of episodes a search may run.
    spec fn episode_limit(&self) -> usize;

    /// Runs episodes of `agent` in `environment` until the values have stopped
    /// moving or the episode limit is reached, improving the agent's policy on
    /// the way.
    fn policy_search(
        self,
        environment: &mut Self::Environment,
        agent: &mut <Self::Environment as Environment>::Agent,
    ) -> (estimate: Estimate<<<Self::Environment as Environment>::Agent as Agent>::Value>)
        requires
            table_len::<
                <<Self::Environment as Environment>::Agent as Agent>::Observation,
                <<Self::Environment as Environment>::Agent as Agent>::Action,
            >() <= usize::MAX,
        ensures
            estimate.episodes <= self.episode_limit(),
            estimate.converged == is_plateau(estimate.variations@),
            estimate.converged || estimate.episodes == self.episode_limit(),
            estimate.action_values@.len() == table_len::<
                <<Self::Environment as Environment>::Agent as Agent>::Observation,
                <<Self::Environment as Environment>::Agent as Agent>::Action,
            >(),
    ;
}

/// The place of the pair (`observation`, `action`) in a table of `actions`
/// columns: the tables of every estimator are laid out row by row, one row for
/// each observation.
pub open spec fn tabular_index_spec(observation: int, action: int, actions: int) -> int {
    observation * actions + action
}

/// How many entries a table over the observations `S` and the actions `A` has.
pub open spec fn table_len<S: DiscreteObservation, A: DiscreteAction>() -> int {
    S::count_spec() * A::count_spec()
}

/// The place in the tables of the pair that a step is about.
pub open spec fn step_place<S: DiscreteObservation, A: DiscreteAction, V>(
    step: Trajectory<S, A, V>,
) -> int {
    tabular_index_spec(
        step->Step_observation.index_spec() as int,
        step->action.index_spec() as int,
        A::count_spec() as int,
    )
}

/// Every pair of an observation and an action below the counts has a place in
/// the table.
pub proof fn lemma_tabular_index_in_table(
    observation: int,
    action: int,
    observations: int,
    actions: int,
)
    requires
        0 <= observation < observations,
        0 <= action < actions,
    ensures
        0 <= tabular_index_spec(observation, action, actions) < observations * actions,
{
    lemma_row_in_table(observation, observations, actions);
}

/// The row of every observation below the count lies in the table.
pub proof fn lemma_row_in_table(observation: int, observations: int, actions: int)
    requires
        0 <= observation < observations,
        0 <= actions,
    ensures
        0 <= observation * actions,
        observation * actions + actions <= observations * actions,
{
    assert(observation * actions + actions <= observations * actions) by (nonlinear_arith)
        requires
            0 <= observation < observations,
            0 <= actions,
    ;
    assert(0 <= observation * actions) by (nonlinear_arith)
        requires
            0 <= observation,
            0 <= actions,
    ;
}

/// Two pairs with the same place in the table are the same pair.
pub proof fn lemma_tabular_index_injective(
    observation: int,
    action: int,
    other_observation: int,
    other_action: int,
    actions: int,
)
    requires
        0 <= action < actions,
        0 <= other_action < actions,
        tabular_index_spec(observation, action, actions) == tabular_index_spec(
            other_observation,
            other_action,
            actions,
        ),
    ensures
        observation == other_observation,
        action == other_action,
{
    if observation != other_observation {
        assert((observation - other_observation) * actions == other_action - action)
            by (nonlinear_arith)
            requires
                observation * actions + action == other_observation * actions + other_action,
        ;
        assert(false) by (nonlinear_arith)
            requires
                observation != other_observation,
                (observation - other_observation) * actions == other_action - action,
                -actions < other_action - action < actions,
                actions > 0,
        ;
    }
}

/// Every place of the table belongs to a pair of an observation and an action:
/// the quotient and the remainder of the place by the number of actions.
pub proof fn lemma_tabular_index_onto(place: int, observations: int, actions: int)
    requires
        0 <= place < observations * actions,
        0 <= observations,
        0 < actions,
    ensures
        0 <= place / actions < observations,
        0 <= place % actions < actions,
        tabular_index_spec(place / actions, place % actions, actions) == place,
{
    vstd::arithmetic::div_mod::lemma_fundamental_div_mod(place, actions);
    vstd::arithmetic::div_mod::lemma_mod_bound(place, actions);
    assert(place / actions < observations) by (nonlinear_arith)
        requires
            place < observations * actions,
            0 < actions,
            place == actions * (place / actions) + place % actions,
            0 <= place % actions,
    ;
    assert(0 <= place / actions) by (nonlinear_arith)
        requires
            0 <= place,
            0 < actions,
            place == actions * (place / actions) + place % actions,
            place % actions < actions,
    ;
    assert(actions * (place / actions) == (place / actions) * actions) by (nonlinear_arith);
}

/// The place of (`observation`, `action`) in the tables of the estimators.
pub fn tabular_index<A: DiscreteAction, S: DiscreteObservation>(
    action: &A,
    observation: &S,
) -> (i: usize)
    requires
        table_len::<S, A>() <= usize::MAX,
    ensures
        i == tabular_index_spec(
            observation.index_spec() as int,
            action.index_spec() as int,
            A::count_spec() as int,
        ),
        i < table_len::<S, A>(),
        observation.index_spec() < S::count_spec(),
        action.index_spec() < A::count_spec(),
{
    let o = observation.index();
    let a = action.index();
    let n = A::count();
    proof {
        lemma_tabular_index_in_table(o as int, a as int, S::count_spec() as int, n as int);
    }
    o * n + a
}

/// The value of `action` at `observation` in a table of action values: the
/// table read as a function of the pair.
pub fn value_of<A: DiscreteAction, S: DiscreteObservation, V: Copy>(
    action_values: &Vec<V>,
    observation: &S,
    action: &A,
) -> (value: V)
    requires
        table_len::<S, A>() <= usize::MAX,
        action_values@.len() == table_len::<S, A>(),
    ensures
        value == action_values@[tabular_index_spec(
            observation.index_spec() as int,
            action.index_spec() as int,
            A::count_spec() as int,
        )],
{
    action_values[tabular_index(action, observation)]
}

/// The return from step `t` on: the reward of the last step is its own return,
/// and every earlier return is the step's reward plus the discounted return of
/// the step after it.
pub open spec fn return_at<V: Scalar>(rewards: Seq<V>, discount: V, t: int) -> V
    decreases rewards.len() - t,
{
    if t < 0 || t >= rewards.len() {
        V::zero_spec()
    } else if t == rewards.len() - 1 {
        rewards[t]
    } else {
        rewards[t].plus_spec(discount.times_spec(return_at(rewards, discount, t + 1)))
    }
}

/// The return from every step of an episode on.
pub open spec fn discounted_returns<V: Scalar>(rewards: Seq<V>, discount: V) -> Seq<V> {
    Seq::new(rewards.len(), |t: int| return_at(rewards, discount, t))
}

/// In a carrier with exact units every return, the last one too, is the step's
/// reward plus the discounted return of what follows, where nothing follows
/// the last step and the return of nothing is zero.
pub proof fn lemma_return_unfolds<V: Scalar>(rewards: Seq<V>, discount: V, t: int)
    requires
        has_exact_units::<V>(),
        0 <= t < rewards.len(),
    ensures
        return_at(rewards, discount, t) == rewards[t].plus_spec(
            discount.times_spec(return_at(rewards, discount, t + 1)),
        ),
        return_at(rewards, discount, rewards.len() as int) == V::zero_spec(),
{
}

/// The reward of a step.
pub fn step_reward<S: Observation, A: Action, V: Copy>(step: &Trajectory<S, A, V>) -> (reward: V)
    requires
        step is Step,
    ensures
        reward == step->reward,
{
    match step {
        Trajectory::Step { reward, .. } => *reward,
        Trajectory::Final { .. } => vstd::pervasive::unreached(),
    }
}

/// Computes the discounted return of every step of an episode: `G_t = r_t +
/// discount * G_{t+1}`, where the last step's return is its reward. The final
/// entry of the trajectory has no reward and gets no return.
pub fn discounted_return<S: Observation, A: Action, V: Scalar>(
    trajectory: &Vec<Trajectory<S, A, V>>,
    return_discount: V,
    episode_returns: &mut Vec<V>,
)
    requires
        is_episode(trajectory@),
    ensures
        final(episode_returns)@ == discounted_returns(rewards_of(trajectory@), return_discount),
        final(episode_returns)@.len() == trajectory@.len() - 1,
        forall|t: int|
            0 <= t < trajectory@.len() - 2 ==> #[trigger] final(episode_returns)@[t]
                == trajectory@[t]->reward.plus_spec(
                return_discount.times_spec(final(episode_returns)@[t + 1]),
            ),
        trajectory@.len() >= 2 ==> final(episode_returns)@[trajectory@.len() - 2]
            == trajectory@[trajectory@.len() - 2]->reward,
{
    let steps = trajectory.len() - 1;
    let ghost rewards = rewards_of(trajectory@);
    episode_returns.clear();
    let mut t: usize = 0;
    while t < steps
        invariant
            is_episode(trajectory@),
            steps == trajectory@.len() - 1,
            rewards == rewards_of(trajectory@),
            0 <= t <= steps,
            episode_returns@.len() == t,
            forall|k: int| 0 <= k < t ==> #[trigger] episode_returns@[k] == rewards[k],
        decreases steps - t,
    {
        let reward = step_reward(&trajectory[t]);
        episode_returns.push(reward);
        t = t + 1;
    }
    if steps > 0 {
        let mut t: usize = steps - 1;
        while t > 0
            invariant
                steps == rewards.len(),
                0 <= t < steps,
                episode_returns@.len() == steps,
                forall|k: int| 0 <= k < t ==> #[trigger] episode_returns@[k] == rewards[k],
                forall|k: int|
                    t <= k < steps ==> #[trigger] episode_returns@[k] == return_at(
                        rewards,
                        return_discount,
                        k,
                    ),
            decreases t,
        {
            let later = episode_returns[t];
            let reward = episode_returns[t - 1];
            episode_returns[t - 1] = reward.plus(return_discount.times(later));
            t = t - 1;
        }
    }
}

/// The variations of the last few episodes, oldest first. An empty slot stands
/// for an episode that has not been run; it counts as an unbounded variation.
pub struct ConvergenceWindow<V: Scalar> {
    slots: Vec<Option<V>>,
}

/// Every slot of the window holds a variation, and none of them is above the
/// carrier's tolerance.
pub open spec fn is_plateau<V: Scalar>(slots: Seq<Option<V>>) -> bool {
    forall|i: int|
        0 <= i < slots.len() ==> (#[trigger] slots[i] matches Some(variation)
            && variation.key_spec() <= V::tolerance_spec().key_spec())
}

impl<V: Scalar> ConvergenceWindow<V> {
    #[verifier::type_invariant]
    spec fn well_formed(self) -> bool {
        self.slots@.len() == CONVERGENCE_WINDOW
    }

    /// The slots, oldest first.
    pub closed spec fn view(&self) -> Seq<Option<V>> {
        self.slots@
    }

    /// A window of empty slots.
    pub fn new() -> (window: Self)
        ensures
            window@ == Seq::new(CONVERGENCE_WINDOW as nat, |i: int| None::<V>),
    {
        let mut slots: Vec<Option<V>> = Vec::new();
        let mut i: usize = 0;
        while i < CONVERGENCE_WINDOW
            invariant
                0 <= i <= CONVERGENCE_WINDOW,
                slots@.len() == i,
                forall|k: int| 0 <= k < i ==> (#[trigger] slots@[k]) is None,
            decreases CONVERGENCE_WINDOW - i,
        {
            slots.push(None);
            i = i + 1;
        }
        ConvergenceWindow { slots }
    }

    /// Drops the oldest slot and appends the variation of the episode just run.
    pub fn record(&mut self, variation: V)
        ensures
            final(self)@ == old(self)@.subrange(1, CONVERGENCE_WINDOW as int).push(Some(variation)),
    {
        proof {
            use_type_invariant(&*self);
        }
        let mut i: usize = 0;
        while i < CONVERGENCE_WINDOW - 1
            invariant
                0 <= i <= CONVERGENCE_WINDOW - 1,
                self.slots@.len() == CONVERGENCE_WINDOW,
                forall|k: int| 0 <= k < i ==> #[trigger] self.slots@[k] == old(self).slots@[k + 1],
                forall|k: int|
                    i <= k < CONVERGENCE_WINDOW ==> #[trigger] self.slots@[k] == old(
                        self,
                    ).slots@[k],
            decreases CONVERGENCE_WINDOW - 1 - i,
        {
            let next = self.slots[i + 1];
            self.slots[i] = next;
            i = i + 1;
        }
        self.slots[CONVERGENCE_WINDOW - 1] = Some(variation);
    }

    /// Whether the values have stopped moving: every one of the last episodes
    /// changed them by no more than the carrier's tolerance.
    pub fn has_converged(&self) -> (converged: bool)
        ensures
            converged == is_plateau(self@),
    {
        proof {
            use_type_invariant(self);
        }
        let tolerance = V::tolerance();
        let mut i: usize = 0;
        while i < CONVERGENCE_WINDOW
            invariant
                0 <= i <= CONVERGENCE_WINDOW,
                self.slots@.len() == CONVERGENCE_WINDOW,
                tolerance == V::tolerance_spec(),
                forall|k: int|
                    0 <= k < i ==> (#[trigger] self.slots@[k] matches Some(variation)
                        && variation.key_spec() <= V::tolerance_spec().key_spec()),
            decreases CONVERGENCE_WINDOW - i,
        {
            match self.slots[i] {
                Some(variation) => {
                    if less_than(tolerance, variation) {
                        return false;
                    }
                },
                None => {
                    return false;
                },
            }
            i = i + 1;
        }
        true
    }
}

/// Whether a search that has run `episode` episodes goes on: it stops at the
/// episode limit, and earlier once the window is a plateau.
pub fn search_goes_on<V: Scalar>(
    window: &ConvergenceWindow<V>,
    episode: usize,
    limit: usize,
) -> (on: bool)
    ensures
        on == (!is_plateau(window@) && episode < limit),
{
    !window.has_converged() && episode < limit
}

} // verus!
