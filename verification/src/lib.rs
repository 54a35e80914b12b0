//! Control plane for a fleet of long-running indexer worker processes.
//!
//! The library holds the verified core: the indexer record model and its
//! invariants, the in-memory indexer store, the lifecycle coordinator with
//! its legal state transitions, the supervisor's exit-classification and
//! retry policy, the sink launcher's argument assembly, the work-queue
//! message codec, and the status-probe decision logic. All process, network
//! and storage I/O lives outside the library and hands it plain values.

pub mod errors;
pub mod ids;
pub mod launcher;
pub mod lifecycle;
pub mod model;
pub mod probe;
pub mod queue;
pub mod registry;
pub mod store;
pub mod supervisor;
pub mod textfmt;
