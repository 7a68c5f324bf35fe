//! The verified core of a harness that measures a numerical optimizer: the
//! directory swap that puts a candidate implementation in place of the active
//! one and takes it out again, and the exact statistics of a batch of trials.

pub mod aggregate;
pub mod functions;
pub mod guard;
pub mod layout;
pub mod orchestrator;
pub mod plan;
pub mod stats;
pub mod store;
