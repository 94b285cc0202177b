//! Monte Carlo estimation: a whole episode is played first, and every step
//! then learns from the return that followed it.
use crate::action::DiscreteAction;
use crate::agent::Agent;
use crate::environment::EpisodicEnvironment;
use crate::observation::DiscreteObservation;
use crate::reinforcement_learning::{
    discounted_return, discounted_returns, is_plateau, search_goes_on, step_place, table_len,
    tabular_index, ConvergenceWindow, Estimate, CONVERGENCE_WINDOW,
};
use crate::scalar::{squared, Scalar};
use crate::trajectory::{is_episode, rewards_of, Trajectory};
use vstd::prelude::*;

pub mod constant_alpha_monte_carlo;
pub mod every_visit_monte_carlo;
pub mod first_visit_monte_carlo;
pub mod incremental_monte_carlo;
pub mod running_mean;

pub use self::constant_alpha_monte_carlo::ConstantAlphaMonteCarlo;
pub use self::every_visit_monte_carlo::EveryVisitMonteCarlo;
pub use self::first_visit_monte_carlo::FirstVisitMonteCarlo;
pub use self::incremental_monte_carlo::IncrementalMonteCarlo;

verus! {

/// The tables a Monte Carlo search keeps, all laid out by `tabular_index`.
pub struct MonteCarloSearchState<V> {
    /// Whether the pair was met earlier in the episode at hand.
    pub visited: Vec<bool>,
    /// How often the pair has been learned from.
    pub visit_count: Vec<usize>,
    /// What each action is taken to be worth at each observation.
    pub observation_values: Vec<V>,
}

/// The tables of a search, as sequences.
pub ghost struct MonteCarloTables<V> {
    pub visited: Seq<bool>,
    pub visit_count: Seq<usize>,
    pub observation_values: Seq<V>,
}

impl<V> View for MonteCarloSearchState<V> {
    type V = MonteCarloTables<V>;

    open spec fn view(&self) -> MonteCarloTables<V> {
        MonteCarloTables {
            visited: self.visited@,
            visit_count: self.visit_count@,
            observation_values: self.observation_values@,
        }
    }
}

impl<V> MonteCarloTables<V> {
    /// All three tables have `len` entries.
    pub open spec fn well_formed(self, len: int) -> bool {
        &&& self.visited.len() == len
        &&& self.visit_count.len() == len
        &&& self.observation_values.len() == len
    }
}

/// One more than `count`, as far as the machine can count.
pub open spec fn next_count(count: usize) -> usize {
    if count < usize::MAX {
        (count + 1) as usize
    } else {
        count
    }
}

/// The mean of the returns of a pair, moved on by the return of one more
/// visit: `V + (G - V) / N`.
pub open spec fn mean_step<V: Scalar>(value: V, visits: usize, step_return: V) -> V {
    value.plus_spec(step_return.minus_spec(value).over_spec(V::from_count_spec(visits)))
}

/// The value of a pair, moved towards the return of one more visit by the
/// step size one over the visits: `V + (1 / N) * (G - V)`.
pub open spec fn incremental_step<V: Scalar>(value: V, visits: usize, step_return: V) -> V {
    value.plus_spec(
        V::one_spec().over_spec(V::from_count_spec(visits)).times_spec(
            step_return.minus_spec(value),
        ),
    )
}

/// The tables of a search that has not begun: `len` entries, nothing visited,
/// nothing counted, every value zero.
pub open spec fn fresh_tables<V: Scalar>(len: nat) -> MonteCarloTables<V> {
    MonteCarloTables {
        visited: Seq::new(len, |i: int| false),
        visit_count: Seq::new(len, |i: int| 0usize),
        observation_values: Seq::new(len, |i: int| V::zero_spec()),
    }
}

/// The tables with the visits of the last episode forgotten.
pub open spec fn forget_visits<V>(tables: MonteCarloTables<V>) -> MonteCarloTables<V> {
    MonteCarloTables {
        visited: Seq::new(tables.visited.len(), |i: int| false),
        visit_count: tables.visit_count,
        observation_values: tables.observation_values,
    }
}

impl<V: Scalar> MonteCarloSearchState<V> {
    /// Tables of `len` entries: nothing visited, nothing counted, every value zero.
    pub fn new(len: usize) -> (state: Self)
        ensures
            state@ == fresh_tables::<V>(len as nat),
            state@.well_formed(len as int),
    {
        let zero = V::zero();
        let mut visited: Vec<bool> = Vec::new();
        let mut visit_count: Vec<usize> = Vec::new();
        let mut observation_values: Vec<V> = Vec::new();
        let mut i: usize = 0;
        while i < len
            invariant
                0 <= i <= len,
                zero == V::zero_spec(),
                visited@.len() == i,
                visit_count@.len() == i,
                observation_values@.len() == i,
                forall|k: int| 0 <= k < i ==> !(#[trigger] visited@[k]),
                forall|k: int| 0 <= k < i ==> #[trigger] visit_count@[k] == 0,
                forall|k: int| 0 <= k < i ==> #[trigger] observation_values@[k] == zero,
            decreases len - i,
        {
            visited.push(false);
            visit_count.push(0);
            observation_values.push(zero);
            i = i + 1;
        }
        assert(visited@ =~= fresh_tables::<V>(len as nat).visited);
        assert(visit_count@ =~= fresh_tables::<V>(len as nat).visit_count);
        assert(observation_values@ =~= fresh_tables::<V>(len as nat).observation_values);
        MonteCarloSearchState { visited, visit_count, observation_values }
    }

    /// Forgets the visits of the last episode. Counts and values stay.
    pub fn start_episode(&mut self)
        ensures
            final(self)@ == forget_visits(old(self)@),
    {
        let len = self.visited.len();
        let mut i: usize = 0;
        while i < len
            invariant
                0 <= i <= len,
                self.visited@.len() == len,
                self.visit_count@ == old(self).visit_count@,
                self.observation_values@ == old(self).observation_values@,
                forall|k: int| 0 <= k < i ==> !(#[trigger] self.visited@[k]),
            decreases len - i,
        {
            self.visited[i] = false;
            i = i + 1;
        }
        assert(self.visited@ =~= forget_visits(old(self)@).visited);
    }
}

/// The rule by which one step of an episode changes the tables.
pub trait MonteCarlo<AC: DiscreteAction, S: DiscreteObservation, V: Scalar>: Sized {
    /// Whether a pair learns from its first visit in an episode only.
    spec fn first_visit_only(&self) -> bool;

    /// The value of a pair after it has learned from `step_return` at its
    /// `visits`-th visit, the one at hand counted.
    spec fn learned_value(&self, value: V, visits: usize, step_return: V) -> V;

    /// Lets the pair of `step` learn from `step_return`, the discounted return
    /// from the step on, and gives the square of the change of its value.
    ///
    /// Under first-visit gating a pair that was met earlier in the episode is
    /// left as it is. Otherwise the pair is counted once more and its value
    /// becomes the learned value.
    fn step_update(
        &self,
        step: &Trajectory<S, AC, V>,
        step_return: &V,
        state: &mut MonteCarloSearchState<V>,
    ) -> (variation: V)
        requires
            step is Step,
            table_len::<S, AC>() <= usize::MAX,
            old(state)@.well_formed(table_len::<S, AC>()),
        ensures
            0 <= step_place(*step) < table_len::<S, AC>(),
            final(state)@.well_formed(table_len::<S, AC>()),
            ({
                let place = step_place(*step);
                let before = old(state)@;
                let after = final(state)@;
                if self.first_visit_only() && before.visited[place] {
                    &&& after == before
                    &&& variation == squared(
                        before.observation_values[place].minus_spec(
                            before.observation_values[place],
                        ),
                    )
                } else {
                    let visits = next_count(before.visit_count[place]);
                    let value = self.learned_value(
                        before.observation_values[place],
                        visits,
                        *step_return,
                    );
                    &&& after.visited == if self.first_visit_only() {
                        before.visited.update(place, true)
                    } else {
                        before.visited
                    }
                    &&& after.visit_count == before.visit_count.update(place, visits)
                    &&& after.observation_values == before.observation_values.update(place, value)
                    &&& variation == squared(before.observation_values[place].minus_spec(value))
                }
            }),
    ;
}

/// The tables after the pair at `place` has learned from `step_return`.
pub open spec fn after_visit<
    AC: DiscreteAction,
    S: DiscreteObservation,
    V: Scalar,
    M: MonteCarlo<AC, S, V>,
>(rule: M, before: MonteCarloTables<V>, place: int, step_return: V) -> MonteCarloTables<V> {
    if rule.first_visit_only() && before.visited[place] {
        before
    } else {
        let visits = next_count(before.visit_count[place]);
        MonteCarloTables {
            visited: if rule.first_visit_only() {
                before.visited.update(place, true)
            } else {
                before.visited
            },
            visit_count: before.visit_count.update(place, visits),
            observation_values: before.observation_values.update(
                place,
                rule.learned_value(before.observation_values[place], visits, step_return),
            ),
        }
    }
}

/// The square of the change that a visit makes to the value at `place`.
pub open spec fn visit_variation<
    AC: DiscreteAction,
    S: DiscreteObservation,
    V: Scalar,
    M: MonteCarlo<AC, S, V>,
>(rule: M, before: MonteCarloTables<V>, place: int, step_return: V) -> V {
    squared(
        before.observation_values[place].minus_spec(
            after_visit::<AC, S, V, M>(rule, before, place, step_return).observation_values[place],
        ),
    )
}

/// The tables after the first `steps` steps of an episode have learned, each
/// from its own return, in the order of the episode.
pub open spec fn after_steps<
    AC: DiscreteAction,
    S: DiscreteObservation,
    V: Scalar,
    M: MonteCarlo<AC, S, V>,
>(
    rule: M,
    before: MonteCarloTables<V>,
    trajectory: Seq<Trajectory<S, AC, V>>,
    step_returns: Seq<V>,
    steps: int,
) -> MonteCarloTables<V>
    decreases steps,
{
    if steps <= 0 {
        before
    } else {
        after_visit::<AC, S, V, M>(
            rule,
            after_steps::<AC, S, V, M>(rule, before, trajectory, step_returns, steps - 1),
            step_place(trajectory[steps - 1]),
            step_returns[steps - 1],
        )
    }
}

/// The sum of the squared changes that the first `steps` steps of an episode
/// make, added up from zero in the order of the episode.
pub open spec fn variation_of_steps<
    AC: DiscreteAction,
    S: DiscreteObservation,
    V: Scalar,
    M: MonteCarlo<AC, S, V>,
>(
    rule: M,
    before: MonteCarloTables<V>,
    trajectory: Seq<Trajectory<S, AC, V>>,
    step_returns: Seq<V>,
    steps: int,
) -> V
    decreases steps,
{
    if steps <= 0 {
        V::zero_spec()
    } else {
        variation_of_steps::<AC, S, V, M>(rule, before, trajectory, step_returns, steps - 1).plus_spec(
            visit_variation::<AC, S, V, M>(
                rule,
                after_steps::<AC, S, V, M>(rule, before, trajectory, step_returns, steps - 1),
                step_place(trajectory[steps - 1]),
                step_returns[steps - 1],
            ),
        )
    }
}

/// How often the pair at `place` is met in the first `steps` steps of an episode.
pub open spec fn occurrences<S: DiscreteObservation, AC: DiscreteAction, V>(
    trajectory: Seq<Trajectory<S, AC, V>>,
    place: int,
    steps: int,
) -> nat
    decreases steps,
{
    if steps <= 0 {
        0
    } else {
        occurrences(trajectory, place, steps - 1) + if step_place(trajectory[steps - 1]) == place {
            1nat
        } else {
            0nat
        }
    }
}

/// The first of the first `steps` steps of an episode that meets the pair at
/// `place`, if one of them does.
pub open spec fn first_visit<S: DiscreteObservation, AC: DiscreteAction, V>(
    trajectory: Seq<Trajectory<S, AC, V>>,
    place: int,
    steps: int,
) -> int
    decreases steps,
{
    if steps <= 0 {
        0
    } else if occurrences(trajectory, place, steps - 1) > 0 {
        first_visit(trajectory, place, steps - 1)
    } else {
        steps - 1
    }
}

/// `count` counted up `times` times, as far as the machine can count.
pub open spec fn counted_up(count: usize, times: nat) -> usize
    decreases times,
{
    if times == 0 {
        count
    } else {
        next_count(counted_up(count, (times - 1) as nat))
    }
}

/// The first `steps` steps of an episode are all about pairs of a table of
/// `len` entries.
pub open spec fn steps_in_table<S: DiscreteObservation, AC: DiscreteAction, V>(
    trajectory: Seq<Trajectory<S, AC, V>>,
    steps: int,
    len: int,
) -> bool {
    &&& 0 <= steps <= trajectory.len()
    &&& forall|t: int| 0 <= t < steps ==> 0 <= #[trigger] step_place(trajectory[t]) < len
}

/// Under first-visit gating a pair learns at most once in an episode, however
/// often it is met: where the episode starts with no pair visited, a pair that
/// is never met keeps its count and its value, and a pair that is met is
/// counted once and learns once, from the return of its first visit.
pub proof fn lemma_first_visit_learns_once<
    AC: DiscreteAction,
    S: DiscreteObservation,
    V: Scalar,
    M: MonteCarlo<AC, S, V>,
>(
    rule: M,
    before: MonteCarloTables<V>,
    trajectory: Seq<Trajectory<S, AC, V>>,
    step_returns: Seq<V>,
    steps: int,
    place: int,
)
    requires
        rule.first_visit_only(),
        before.well_formed(table_len::<S, AC>()),
        forall|i: int| 0 <= i < before.visited.len() ==> !(#[trigger] before.visited[i]),
        steps_in_table(trajectory, steps, table_len::<S, AC>()),
        0 <= place < table_len::<S, AC>(),
    ensures
        ({
            let after = after_steps::<AC, S, V, M>(rule, before, trajectory, step_returns, steps);
            let met = occurrences(trajectory, place, steps) > 0;
            &&& after.well_formed(table_len::<S, AC>())
            &&& after.visited[place] == met
            &&& !met ==> after.visit_count[place] == before.visit_count[place]
            &&& !met ==> after.observation_values[place] == before.observation_values[place]
            &&& met ==> after.visit_count[place] == next_count(before.visit_count[place])
            &&& met ==> after.observation_values[place] == rule.learned_value(
                before.observation_values[place],
                next_count(before.visit_count[place]),
                step_returns[first_visit(trajectory, place, steps)],
            )
        }),
    decreases steps,
{
    if steps > 0 {
        lemma_first_visit_learns_once::<AC, S, V, M>(
            rule,
            before,
            trajectory,
            step_returns,
            steps - 1,
            place,
        );
        let here = step_place(trajectory[steps - 1]);
        lemma_first_visit_learns_once::<AC, S, V, M>(
            rule,
            before,
            trajectory,
            step_returns,
            steps - 1,
            here,
        );
    }
}

/// Without first-visit gating a pair learns at every visit: after an episode
/// it has been counted as often as it was met.
pub proof fn lemma_every_visit_counts<
    AC: DiscreteAction,
    S: DiscreteObservation,
    V: Scalar,
    M: MonteCarlo<AC, S, V>,
>(
    rule: M,
    before: MonteCarloTables<V>,
    trajectory: Seq<Trajectory<S, AC, V>>,
    step_returns: Seq<V>,
    steps: int,
    place: int,
)
    requires
        !rule.first_visit_only(),
        before.well_formed(table_len::<S, AC>()),
        steps_in_table(trajectory, steps, table_len::<S, AC>()),
        0 <= place < table_len::<S, AC>(),
    ensures
        ({
            let after = after_steps::<AC, S, V, M>(rule, before, trajectory, step_returns, steps);
            &&& after.well_formed(table_len::<S, AC>())
            &&& after.visit_count[place] == counted_up(
                before.visit_count[place],
                occurrences(trajectory, place, steps),
            )
            &&& occurrences(trajectory, place, steps) == 0 ==> after.observation_values[place]
                == before.observation_values[place]
        }),
    decreases steps,
{
    if steps > 0 {
        lemma_every_visit_counts::<AC, S, V, M>(
            rule,
            before,
            trajectory,
            step_returns,
            steps - 1,
            place,
        );
    }
}

/// The place in the tables of the pair that a step is about.
pub fn step_index<S: DiscreteObservation, A: DiscreteAction, V>(
    step: &Trajectory<S, A, V>,
) -> (i: usize)
    requires
        step is Step,
        table_len::<S, A>() <= usize::MAX,
    ensures
        i == step_place(*step),
        i < table_len::<S, A>(),
{
    match step {
        Trajectory::Step { observation, action, .. } => tabular_index(action, observation),
        Trajectory::Final { .. } => vstd::pervasive::unreached(),
    }
}

/// One more than `count`, as far as the machine can count.
pub fn count_visit(count: usize) -> (visits: usize)
    ensures
        visits == next_count(count),
{
    if count < usize::MAX {
        count + 1
    } else {
        count
    }
}

/// Appends a step to the record of an episode.
pub fn record_step<S: DiscreteObservation, AC: DiscreteAction, V>(
    trajectory: &mut Vec<Trajectory<S, AC, V>>,
    observation: S,
    action: AC,
    reward: V,
)
    ensures
        final(trajectory)@ == old(trajectory)@.push(
            (Trajectory::Step { observation, action, reward }),
        ),
{
    trajectory.push(Trajectory::Step { observation, action, reward });
}

/// Closes the record of an episode with the observation of its end.
pub fn record_end<S: DiscreteObservation, AC: DiscreteAction, V>(
    trajectory: &mut Vec<Trajectory<S, AC, V>>,
    observation: S,
)
    ensures
        final(trajectory)@ == old(trajectory)@.push((Trajectory::Final { observation })),
        (forall|t: int|
            0 <= t < old(trajectory)@.len() ==> (#[trigger] old(trajectory)@[t]) is Step)
            ==> is_episode(final(trajectory)@),
{
    trajectory.push(Trajectory::Final { observation });
}

/// Plays one episode and records it: the environment is reset, the agent acts
/// on each observation and earns the reward, until the environment shows no
/// observation any more; the observation of the end closes the record.
///
/// A record cannot hold more entries than the machine can count, so the
/// episode is cut off at that length.
pub fn generate_trajectory<AC, S, V, AG, E>(
    environment: &mut E,
    agent: &mut AG,
    trajectory: &mut Vec<Trajectory<S, AC, V>>,
) where
    AC: DiscreteAction,
    S: DiscreteObservation,
    V: Scalar,
    AG: Agent<Action = AC, Observation = S, Value = V>,
    E: EpisodicEnvironment<Agent = AG>,

    ensures
        is_episode(final(trajectory)@),
{
    environment.reset_environment();
    trajectory.clear();
    let mut running = true;
    while running && trajectory.len() < usize::MAX - 1
        invariant
            trajectory@.len() <= usize::MAX - 1,
            forall|t: int| 0 <= t < trajectory@.len() ==> (#[trigger] trajectory@[t]) is Step,
        decreases usize::MAX - trajectory@.len(), if running { 1int } else { 0int },
    {
        match environment.get_observation(&*agent) {
            Some(observation) => {
                let action = agent.act(&observation);
                let reward = environment.receive_action(&*agent, &action);
                record_step(trajectory, observation, action, reward);
            },
            None => {
                running = false;
            },
        }
    }
    let observation = environment.final_observation(&*agent);
    record_end(trajectory, observation);
}

/// Lets every step of an episode learn from its return, in the order of the
/// episode, and adds up the squared changes of the values.
pub fn learn_episode<AC, S, V, M>(
    rule: &M,
    trajectory: &Vec<Trajectory<S, AC, V>>,
    episode_returns: &Vec<V>,
    state: &mut MonteCarloSearchState<V>,
) -> (episode_variation: V) where
    AC: DiscreteAction,
    S: DiscreteObservation,
    V: Scalar,
    M: MonteCarlo<AC, S, V>,

    requires
        is_episode(trajectory@),
        episode_returns@.len() == trajectory@.len() - 1,
        table_len::<S, AC>() <= usize::MAX,
        old(state)@.well_formed(table_len::<S, AC>()),
    ensures
        final(state)@ == after_steps::<AC, S, V, M>(
            *rule,
            old(state)@,
            trajectory@,
            episode_returns@,
            episode_returns@.len() as int,
        ),
        episode_variation == variation_of_steps::<AC, S, V, M>(
            *rule,
            old(state)@,
            trajectory@,
            episode_returns@,
            episode_returns@.len() as int,
        ),
        final(state)@.well_formed(table_len::<S, AC>()),
        trajectory@.len() == 1 ==> final(state)@ == old(state)@ && episode_variation
            == V::zero_spec(),
{
    let steps = episode_returns.len();
    let mut episode_variation = V::zero();
    let mut t: usize = 0;
    while t < steps
        invariant
            is_episode(trajectory@),
            steps == episode_returns@.len(),
            steps == trajectory@.len() - 1,
            table_len::<S, AC>() <= usize::MAX,
            0 <= t <= steps,
            state@.well_formed(table_len::<S, AC>()),
            state@ == after_steps::<AC, S, V, M>(
                *rule,
                old(state)@,
                trajectory@,
                episode_returns@,
                t as int,
            ),
            episode_variation == variation_of_steps::<AC, S, V, M>(
                *rule,
                old(state)@,
                trajectory@,
                episode_returns@,
                t as int,
            ),
        decreases steps - t,
    {
        let variation = rule.step_update(&trajectory[t], &episode_returns[t], state);
        episode_variation = episode_variation.plus(variation);
        t = t + 1;
    }
    episode_variation
}

/// The tables after one more episode: its visits start from none, and every
/// step learns from its discounted return.
pub open spec fn after_episode<
    AC: DiscreteAction,
    S: DiscreteObservation,
    V: Scalar,
    M: MonteCarlo<AC, S, V>,
>(rule: M, before: MonteCarloTables<V>, trajectory: Seq<Trajectory<S, AC, V>>, discount: V)
    -> MonteCarloTables<V> {
    after_steps::<AC, S, V, M>(
        rule,
        forget_visits(before),
        trajectory,
        discounted_returns(rewards_of(trajectory), discount),
        trajectory.len() - 1,
    )
}

/// The sum of the squared changes that one more episode makes.
pub open spec fn variation_of_episode<
    AC: DiscreteAction,
    S: DiscreteObservation,
    V: Scalar,
    M: MonteCarlo<AC, S, V>,
>(rule: M, before: MonteCarloTables<V>, trajectory: Seq<Trajectory<S, AC, V>>, discount: V) -> V {
    variation_of_steps::<AC, S, V, M>(
        rule,
        forget_visits(before),
        trajectory,
        discounted_returns(rewards_of(trajectory), discount),
        trajectory.len() - 1,
    )
}

/// The tables after the first `played` of the episodes have been learned
/// from, one after the other.
pub open spec fn after_episodes<
    AC: DiscreteAction,
    S: DiscreteObservation,
    V: Scalar,
    M: MonteCarlo<AC, S, V>,
>(
    rule: M,
    before: MonteCarloTables<V>,
    episodes: Seq<Seq<Trajectory<S, AC, V>>>,
    discount: V,
    played: int,
) -> MonteCarloTables<V>
    decreases played,
{
    if played <= 0 {
        before
    } else {
        after_episode::<AC, S, V, M>(
            rule,
            after_episodes::<AC, S, V, M>(rule, before, episodes, discount, played - 1),
            episodes[played - 1],
            discount,
        )
    }
}

/// The convergence window after the first `played` of the episodes: it starts
/// empty and records the variation of each episode.
pub open spec fn window_after_episodes<
    AC: DiscreteAction,
    S: DiscreteObservation,
    V: Scalar,
    M: MonteCarlo<AC, S, V>,
>(
    rule: M,
    before: MonteCarloTables<V>,
    episodes: Seq<Seq<Trajectory<S, AC, V>>>,
    discount: V,
    played: int,
) -> Seq<Option<V>>
    decreases played,
{
    if played <= 0 {
        Seq::new(CONVERGENCE_WINDOW as nat, |i: int| None::<V>)
    } else {
        window_after_episodes::<AC, S, V, M>(rule, before, episodes, discount, played - 1).subrange(
            1,
            CONVERGENCE_WINDOW as int,
        ).push(
            Some(
                variation_of_episode::<AC, S, V, M>(
                    rule,
                    after_episodes::<AC, S, V, M>(rule, before, episodes, discount, played - 1),
                    episodes[played - 1],
                    discount,
                ),
            ),
        )
    }
}

/// `estimate` is what a Monte Carlo search under `rule` comes to for the
/// episodes that were played: the search went on while the window was no
/// plateau, and the tables and the window are what these episodes, learned
/// from one after the other, make of tables that are all zero.
pub open spec fn is_monte_carlo_estimate<
    AC: DiscreteAction,
    S: DiscreteObservation,
    V: Scalar,
    M: MonteCarlo<AC, S, V>,
>(
    rule: M,
    discount: V,
    estimate: Estimate<V>,
    episodes: Seq<Seq<Trajectory<S, AC, V>>>,
) -> bool {
    let start = fresh_tables::<V>(table_len::<S, AC>() as nat);
    let end = after_episodes::<AC, S, V, M>(rule, start, episodes, discount, episodes.len() as int);
    &&& episodes.len() == estimate.episodes
    &&& forall|e: int| 0 <= e < episodes.len() ==> is_episode(#[trigger] episodes[e])
    &&& forall|e: int|
        0 <= e < episodes.len() ==> !is_plateau(
            #[trigger] window_after_episodes::<AC, S, V, M>(rule, start, episodes, discount, e),
        )
    &&& estimate.action_values@ == end.observation_values
    &&& estimate.visit_count@ == end.visit_count
    &&& estimate.variations@ == window_after_episodes::<AC, S, V, M>(
        rule,
        start,
        episodes,
        discount,
        episodes.len() as int,
    )
}

/// What the first episodes make of the tables does not depend on the episodes
/// that come after them.
pub proof fn lemma_episodes_so_far<
    AC: DiscreteAction,
    S: DiscreteObservation,
    V: Scalar,
    M: MonteCarlo<AC, S, V>,
>(
    rule: M,
    before: MonteCarloTables<V>,
    episodes: Seq<Seq<Trajectory<S, AC, V>>>,
    longer: Seq<Seq<Trajectory<S, AC, V>>>,
    discount: V,
    played: int,
)
    requires
        0 <= played <= episodes.len() <= longer.len(),
        forall|e: int| 0 <= e < episodes.len() ==> #[trigger] episodes[e] == longer[e],
    ensures
        after_episodes::<AC, S, V, M>(rule, before, longer, discount, played) == after_episodes::<
            AC,
            S,
            V,
            M,
        >(rule, before, episodes, discount, played),
        window_after_episodes::<AC, S, V, M>(rule, before, longer, discount, played)
            == window_after_episodes::<AC, S, V, M>(rule, before, episodes, discount, played),
    decreases played,
{
    if played > 0 {
        lemma_episodes_so_far::<AC, S, V, M>(rule, before, episodes, longer, discount, played - 1);
    }
}

/// Searches for a policy by Monte Carlo estimation under `rule`.
///
/// Episode after episode, up to `iteration_limit` of them and no further than
/// the plateau of the last few: the visits of the last episode are forgotten,
/// an episode is played, its discounted returns are computed, every step learns
/// from its return, and the agent improves its policy from the new values.
pub fn monte_carlo_policy_search<AC, S, V, AG, E, M>(
    rule: &M,
    environment: &mut E,
    agent: &mut AG,
    return_discount: V,
    iteration_limit: usize,
) -> (estimate: Estimate<V>) where
    AC: DiscreteAction,
    S: DiscreteObservation,
    V: Scalar,
    AG: Agent<Action = AC, Observation = S, Value = V>,
    E: EpisodicEnvironment<Agent = AG>,
    M: MonteCarlo<AC, S, V>,

    requires
        table_len::<S, AC>() <= usize::MAX,
    ensures
        estimate.episodes <= iteration_limit,
        estimate.converged == is_plateau(estimate.variations@),
        estimate.converged || estimate.episodes == iteration_limit,
        estimate.action_values@.len() == table_len::<S, AC>(),
        estimate.visit_count@.len() == table_len::<S, AC>(),
        exists|episodes: Seq<Seq<Trajectory<S, AC, V>>>| #[trigger]
            is_monte_carlo_estimate::<AC, S, V, M>(*rule, return_discount, estimate, episodes),
{
    let len = S::count() * AC::count();
    let mut state: MonteCarloSearchState<V> = MonteCarloSearchState::new(len);
    let mut trajectory: Vec<Trajectory<S, AC, V>> = Vec::new();
    let mut episode_returns: Vec<V> = Vec::new();
    let mut episode: usize = 0;
    let mut window: ConvergenceWindow<V> = ConvergenceWindow::new();
    let ghost start = fresh_tables::<V>(table_len::<S, AC>() as nat);
    let ghost mut episodes: Seq<Seq<Trajectory<S, AC, V>>> = Seq::empty();
    while search_goes_on(&window, episode, iteration_limit)
        invariant
            len == table_len::<S, AC>(),
            table_len::<S, AC>() <= usize::MAX,
            start == fresh_tables::<V>(table_len::<S, AC>() as nat),
            state@.well_formed(table_len::<S, AC>()),
            episode <= iteration_limit,
            episodes.len() == episode,
            forall|e: int| 0 <= e < episodes.len() ==> is_episode(#[trigger] episodes[e]),
            forall|e: int|
                0 <= e < episodes.len() ==> !is_plateau(
                    #[trigger] window_after_episodes::<AC, S, V, M>(
                        *rule,
                        start,
                        episodes,
                        return_discount,
                        e,
                    ),
                ),
            state@ == after_episodes::<AC, S, V, M>(
                *rule,
                start,
                episodes,
                return_discount,
                episode as int,
            ),
            window@ == window_after_episodes::<AC, S, V, M>(
                *rule,
                start,
                episodes,
                return_discount,
                episode as int,
            ),
        decreases iteration_limit - episode,
    {
        let ghost earlier = episodes;
        state.start_episode();
        generate_trajectory(environment, agent, &mut trajectory);
        discounted_return(&trajectory, return_discount, &mut episode_returns);
        let episode_variation = learn_episode(rule, &trajectory, &episode_returns, &mut state);
        window.record(episode_variation);
        agent.policy_improvemnt(&state.observation_values);
        proof {
            episodes = earlier.push(trajectory@);
            assert forall|e: int| 0 <= e <= earlier.len() implies #[trigger] window_after_episodes::<
                AC,
                S,
                V,
                M,
            >(*rule, start, episodes, return_discount, e) == window_after_episodes::<AC, S, V, M>(
                *rule,
                start,
                earlier,
                return_discount,
                e,
            ) by {
                lemma_episodes_so_far::<AC, S, V, M>(
                    *rule,
                    start,
                    earlier,
                    episodes,
                    return_discount,
                    e,
                );
            }
            lemma_episodes_so_far::<AC, S, V, M>(
                *rule,
                start,
                earlier,
                episodes,
                return_discount,
                episode as int,
            );
        }
        episode = episode + 1;
    }
    let converged = window.has_converged();
    let estimate = Estimate {
        episodes: episode,
        action_values: state.observation_values,
        visit_count: state.visit_count,
        converged,
        variations: window,
    };
    proof {
        assert(is_monte_carlo_estimate::<AC, S, V, M>(*rule, return_discount, estimate, episodes));
    }
    estimate
}

} // verus!
