//! One-way synchronization engine between a local filesystem tree and a
//! remote object-storage bucket (and bucket-to-bucket).
//!
//! This crate holds the decision core of the engine: the path mapper, the
//! change-detection policy, the streaming checksum, the bounded-concurrency
//! scheduler's bookkeeping, and the planner that turns a source listing and a
//! destination snapshot into the minimal set of transfer actions. The
//! surrounding I/O (object listing, HTTP transfers, filesystem calls) is left
//! to the caller, which feeds plain values in and executes the planned
//! actions.

pub mod checksum;
pub mod errors;
pub mod paths;
pub mod plan;
pub mod policy;
pub mod scheduler;
pub mod sources;
