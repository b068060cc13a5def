//! A lightweight workload orchestrator core: given a point-in-time snapshot
//! of a small node fleet, it places pod-like and deployment-like resources
//! onto nodes, locates instances already running elsewhere, and dispatches
//! serialized manifests to the chosen node's agent.
//!
//! The scheduling engine is pure decision logic over plain values; remote
//! execution is reached only through the [`scheduler::Fleet`] abstraction,
//! which callers implement outside this crate.

pub mod skatelet;
pub mod skate;
pub mod get;
pub mod scheduler;
pub mod state;
pub mod test_helpers;
pub mod util;
pub mod filestore;
