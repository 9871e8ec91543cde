//! Coordination core of a harness that drives a multiplexed request/response
//! endpoint under a concurrency budget: bounded dispatch, completion
//! collection with stall detection, outcome classification, and the
//! server-side response strategies.
//!
//! The transport itself (frame multiplexing, flow control) is an external
//! collaborator; this crate holds the decision logic, modelled over plain
//! values and verified.

pub mod collect;
pub mod dispatch;
pub mod frames;
pub mod harness;
pub mod producer;
pub mod report;
pub mod signal;
