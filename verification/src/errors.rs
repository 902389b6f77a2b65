//! The breaker's error taxonomy.

use vstd::prelude::*;

verus! {

/// Why a call through a breaker did not return the operation's success.
///
/// The first three variants are admission refusals: the operation was
/// never run, and no event was recorded. `Execution` carries the
/// operation's own error, unchanged.
#[derive(Debug)]
pub enum CircuitError<E> {
    /// The circuit is open and sheds calls until its timeout elapses.
    Open { circuit: String, opened_at: u64 },
    /// The circuit is half-open and has already admitted as many probes
    /// as its success threshold allows.
    HalfOpenLimitReached { circuit: String },
    /// The bulkhead has no free permit.
    BulkheadFull { circuit: String, limit: u64 },
    /// The operation itself (or the fallback) failed with its own error.
    Execution(E),
}

} // verus!
