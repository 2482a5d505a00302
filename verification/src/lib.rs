//! Verified core of a maintenance-job dispatch queue.
//!
//! A client submits maintenance requests that reference a job template
//! (container image and tag). A background worker claims queued requests,
//! launches an ephemeral task on an orchestration platform, waits for a
//! terminal condition under a timeout, classifies the outcome, removes the
//! remote resource, and records the result. This crate holds the verified
//! logic of that core: the status state machine, the queue-store semantics
//! (atomic claim, status transitions, failure counting), and the task
//! lifecycle state machine with its classification rules.

mod clock;
pub mod lifecycle;
pub mod model;
pub mod status;
pub mod store;
pub mod worker;
