//! Tabular reinforcement learning: an agent picks actions from observations, an
//! environment answers with rewards, and an estimator turns episodes of the two
//! into a table of action values and an improved policy.
//!
//! The domain is discrete and closed: [`action`], [`observation`] and [`state`]
//! describe finite enumerations, and a pair of an observation and an action has
//! a fixed place in every table. [`agent`] and [`environment`] are the two
//! sides of an episode, [`trajectory`] is its record, and [`policy`] holds the
//! greedy and the epsilon-greedy rule of choosing, which draw their randomness
//! from a [`random_number_generator`]. [`reinforcement_learning`] holds the
//! estimators: four of the Monte Carlo kind and three of the temporal-difference
//! kind.
//!
//! Values, rewards and probabilities are drawn from a numeric carrier, the trait
//! [`scalar::Scalar`]. Every contract of the library states its result through the
//! carrier's own operations, so what is proved holds for each carrier alike.
//! [`fixed`] is a carrier of six decimal places.
pub mod action;
pub mod agent;
pub mod environment;
pub mod fixed;
pub mod observation;
pub mod policy;
pub mod random_number_generator;
pub mod reinforcement_learning;
pub mod scalar;
pub mod state;
pub mod trajectory;
