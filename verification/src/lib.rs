//! Incremental synchronization of rojig RPM artifacts from a build stream
//! into an object-storage-backed package repository.
//!
//! The library holds the verified core of the tool: the data model for the
//! build-stream manifests, basename/inventory handling, the sync planner,
//! the codec for the persisted sync-state marker, and a state machine that
//! fixes the order in which the run talks to storage and to the stream.
//! All I/O (HTTP fetches, object-storage calls, the command line) lives in
//! the surrounding application, which drives the state machine and performs
//! the actions it emits.

pub mod laws;
pub mod marker;
pub mod machine;
pub mod model;
pub mod paths;
pub mod planner;

pub use paths::basename;
