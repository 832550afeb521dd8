//! A Deep Q-Learning training core: a bounded experience-replay memory, an
//! epsilon-greedy exploration policy with time-based decay, a fixed-point
//! feed-forward Q-network with a policy and a target instance, a batched
//! temporal-difference optimizer step, and the training-loop state machine
//! that ties them together.
//!
//! All learning-relevant quantities (rewards, observations, Q-values, network
//! parameters, probabilities and hyperparameters) are held as saturating
//! fixed-point numbers with a decimal scale, so that every computation in the
//! library is exact integer arithmetic with a proved contract.

pub mod agent;
pub mod dqn_agent;
pub mod dqn_memory;
pub mod dqn_net;
pub mod dqn_optim;
pub mod dqn_training;
pub mod fixed;
mod rng;

pub use fixed::SCALE;
