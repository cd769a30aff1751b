//! A staked-claim arbitration engine.
//!
//! Parties post a bond to ask for a judgment (an intent), solvers stake a bond
//! to answer it (an evaluation), and anyone may stake a larger bond to dispute
//! an answer (a challenge). The engine keeps the records, advances their
//! statuses, and says which transfers each operation owes. It never reads a
//! clock, a caller or a balance by itself: the caller, the attached stake and
//! the current time are arguments, and transfers are returned as values.
//!
//! Every record has a view, a plain mathematical value, and every operation
//! is described over views by two functions: the reason for which it is
//! refused, if it is, and the state that it leaves when it is admitted. A
//! refused operation changes nothing.
//!
//! - [`types`], [`error`]: the records, their views, and the refusals.
//! - [`contract`]: the engine, its view, and what holds of every state.
//! - [`intents`], [`evaluations`], [`disputes`]: the life of a judgment.
//! - [`solvers`], [`reputation`], [`scoring`], [`distribution`],
//!   [`ranking`]: who answers, how well, and for what reward.
//! - [`users`]: profiles and roles.
//! - [`sweeper`]: expiry and retention.
//! - [`queries`]: reading the engine.
//! - [`validate`], [`parse`]: deciding whether an engine is well formed.
//! - [`laws`]: what holds of every step of the engine.
//! - [`store`], [`flags`], [`text`], [`arith`]: keyed lists, marked lists,
//!   identifiers, and exact arithmetic.
pub mod arith;
pub mod contract;
pub mod disputes;
pub mod distribution;
pub mod error;
pub mod evaluations;
pub mod flags;
pub mod intents;
pub mod laws;
pub mod parse;
pub mod queries;
pub mod ranking;
pub mod reputation;
pub mod scoring;
pub mod solvers;
pub mod store;
pub mod sweeper;
pub mod text;
pub mod types;
pub mod users;
pub mod validate;

pub use contract::OracleIntentContract;
pub use error::OracleError;
pub use types::{
    ChallengeStatus, EvaluationStatus, IntentStatus, IntentType, OracleEvaluation, OracleIntent,
    OracleSolver, PerformanceSample, RefutationChallenge, SolverPerformanceMetrics, SolverStake,
    Source, Transfer, UserProfile, UserRole, Winner,
};
