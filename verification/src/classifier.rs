//! Failure classification: deciding which failures count toward opening
//! a circuit.
//!
//! A classifier sees the circuit's name and how long the failed call
//! took, and answers whether the failure should be recorded and drive a
//! transition. A failure it rejects is still surfaced to the caller but
//! leaves the breaker untouched.

use vstd::prelude::*;

verus! {

/// A predicate over failures: which of them count toward opening the
/// circuit.
///
/// Implementations choose the predicate as a spec function and promise
/// that the executable decision agrees with it. The breaker's contracts
/// then speak of the predicate.
pub trait FailureClassifier: Sized {
    /// The predicate: whether a failure of this duration against this
    /// circuit counts.
    spec fn trips(&self, circuit_name: Seq<char>, duration: u64) -> bool;

    /// Decide whether the failure should count.
    fn should_trip(&self, circuit_name: &str, duration: u64) -> (r: bool)
        ensures
            r == self.trips(circuit_name@, duration),
    ;
}

/// The classifier a breaker uses when none is configured: every failure
/// counts.
#[derive(Debug, Clone, Copy)]
pub struct DefaultClassifier;

impl DefaultClassifier {
    /// Create the always-counting classifier.
    pub fn new() -> (r: Self)
        ensures
            forall|n: Seq<char>, d: u64| r.trips(n, d),
    {
        DefaultClassifier
    }
}

impl Default for DefaultClassifier {
    fn default() -> (r: Self)
        ensures
            forall|n: Seq<char>, d: u64| r.trips(n, d),
    {
        DefaultClassifier::new()
    }
}

impl FailureClassifier for DefaultClassifier {
    open spec fn trips(&self, circuit_name: Seq<char>, duration: u64) -> bool {
        true
    }

    fn should_trip(&self, circuit_name: &str, duration: u64) -> (r: bool) {
        true
    }
}

/// A classifier that counts only failures slower than a threshold:
/// fast, expected failures (a validation error, a refused connection)
/// leave the breaker alone, while slow ones count.
#[derive(Debug, Clone, Copy)]
pub struct DurationClassifier {
    /// Failures taking longer than this (in nanoseconds) count.
    min_duration: u64,
}

impl DurationClassifier {
    /// Create a classifier that counts failures slower than
    /// `min_duration` nanoseconds.
    pub fn new(min_duration: u64) -> (r: Self)
        ensures
            forall|n: Seq<char>, d: u64| r.trips(n, d) == (d > min_duration),
    {
        DurationClassifier { min_duration }
    }
}

impl FailureClassifier for DurationClassifier {
    closed spec fn trips(&self, circuit_name: Seq<char>, duration: u64) -> bool {
        duration > self.min_duration
    }

    fn should_trip(&self, circuit_name: &str, duration: u64) -> (r: bool) {
        duration > self.min_duration
    }
}

} // verus!
