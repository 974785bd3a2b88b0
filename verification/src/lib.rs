//! A verified coordinator for off-chain computation tasks.
//!
//! A caller submits a unit of work and gets a fresh, monotonically assigned
//! identifier; a configured aggregator records each task's result exactly
//! once; each worker's reputation follows the correctness of its results.
//! On every creation the coordinator queues a notification to a registry
//! collaborator and one to a dispatch collaborator.
//!
//! The state machine lives in [`state`], the commands and queries in
//! [`contract`], and the properties that relate several calls — identifier
//! monotonicity, create-once responses, query consistency — are proved in
//! [`laws`]. A host embeds the library by persisting a
//! [`state::Coordinator`] value and handing each call to [`contract`].

pub mod contract;
pub mod error;
pub mod laws;
pub mod msg;
pub mod numstr;
pub mod state;
