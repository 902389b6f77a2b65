//! A circuit breaker: a fault-isolation primitive that wraps a
//! fallible operation and, based on the outcomes observed over a
//! sliding time window, either admits the call, rejects it outright,
//! or cautiously probes for recovery.
//!
//! The breaker owns a three-state machine (closed, open, half-open)
//! with guarded transitions, a per-circuit event store driving the
//! guards, a call-admission pipeline composing an optional bulkhead,
//! an optional failure classifier and a jittered probe timeout, and a
//! builder that assembles it all. Every time is a count of monotonic
//! nanoseconds and every ratio is in parts per million, so the guards
//! are exact integer arithmetic; `laws` states and proves what holds
//! of all of it.

use vstd::prelude::*;

verus! {

/// Kind of an outcome recorded for a circuit.
#[derive(Debug, Clone, Copy, PartialEq, Eq, Structural)]
pub enum EventKind {
    Success,
    Failure,
}

/// A single outcome recorded for a circuit. Times are monotonic
/// nanoseconds measured against the owning store's anchor.
#[derive(Debug, Clone, Copy, PartialEq, Eq, Structural)]
pub struct Event {
    pub kind: EventKind,
    pub timestamp: u64,
    pub duration: u64,
}

} // verus!

pub mod builder;
pub mod bulkhead;
pub mod circuit;
pub mod classifier;
pub mod errors;
pub mod laws;
pub mod storage;

pub use builder::CircuitBuilder;
pub use bulkhead::{BulkheadGuard, BulkheadSemaphore};
pub use circuit::{
    CircuitBreaker, CircuitState, Config, FallbackContext, HalfOpenData, OpenData, Transitions,
};
pub use classifier::{DefaultClassifier, DurationClassifier, FailureClassifier};
pub use errors::CircuitError;
pub use storage::{MemoryStorage, NullStorage, StorageBackend};
