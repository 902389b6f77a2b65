//! The laws the library states of itself, each proved from the
//! contracts of the other modules.

use vstd::prelude::*;

use crate::bulkhead::BulkheadSemaphore;
use crate::circuit::{
    effective_timeout_spec, lemma_effective_timeout_bounds, trip_fires, CircuitBreaker,
    CircuitState, HalfOpenData, PPM_SCALE,
};
use crate::classifier::FailureClassifier;
use crate::errors::CircuitError;
use crate::storage::{timestamps_sorted, StorageBackend};

verus! {

/// The count of bulkhead permits out never exceeds the limit: every
/// bulkhead operation keeps `wf`, and `wf` bounds the count.
pub proof fn bulkhead_never_over_limit(b: BulkheadSemaphore)
    requires
        b.wf(),
    ensures
        b.spec_acquired() <= b.spec_limit(),
{
}

/// A recorded failure that drives the trip leaves the circuit open,
/// stamped with a positive opening time.
pub proof fn failure_trip_opens<S: StorageBackend, C: FailureClassifier>(
    pre: CircuitBreaker<S, C>,
    post: CircuitBreaker<S, C>,
    state0: CircuitState,
    duration: u64,
    reset: bool,
    t1: u64,
    t2: u64,
    t3: u64,
)
    requires
        CircuitBreaker::failure_drive_witness(pre, post, state0, duration, reset, t1, t2, t3),
        post.spec_transitions().opened,
    ensures
        post.spec_state() is Open,
        post.spec_state()->Open_0.opened_at > 0,
{
}

/// Every move into the half-open state begins with zero consecutive
/// successes: the failure accounting never leaves a nonzero count, and
/// the success accounting only advances a count that was already
/// half-open (the open-to-half-open reset enters at zero by the call
/// relation itself).
pub proof fn half_open_entry_starts_fresh<S: StorageBackend, C: FailureClassifier>(
    s: CircuitState,
    should_open: bool,
    stamp: u64,
    threshold: u64,
)
    ensures
        CircuitBreaker::<S, C>::failure_step(s, should_open, stamp).0 matches CircuitState::HalfOpen(
            h,
        ) ==> h.consecutive_successes == 0,
        CircuitBreaker::<S, C>::success_step(s, threshold).0 is HalfOpen ==> s is HalfOpen,
{
}

/// A success closes a half-open circuit exactly when it brings the
/// consecutive count to the success threshold; the count never passes
/// the threshold.
pub proof fn close_fires_exactly_at_threshold<S: StorageBackend, C: FailureClassifier>(
    s: CircuitState,
    threshold: u64,
)
    requires
        threshold >= 1,
        s matches CircuitState::HalfOpen(h) ==> h.consecutive_successes < threshold,
    ensures
        ({
            let (st, fired) = CircuitBreaker::<S, C>::success_step(s, threshold);
            &&& (fired <==> (s matches CircuitState::HalfOpen(h) && h.consecutive_successes + 1
                == threshold))
            &&& (fired ==> st == CircuitState::Closed)
            &&& ((!fired && s is HalfOpen) ==> (st matches CircuitState::HalfOpen(h2)
                && h2.consecutive_successes < threshold))
        }),
{
}

/// A failure in half-open that does not trip leaves the circuit
/// half-open with its progress reset to zero.
pub proof fn half_open_failure_resets_progress<S: StorageBackend, C: FailureClassifier>(
    s: CircuitState,
    should_open: bool,
    stamp: u64,
)
    requires
        s is HalfOpen,
        !trip_fires(s, should_open),
    ensures
        CircuitBreaker::<S, C>::failure_step(s, should_open, stamp).0 == CircuitState::HalfOpen(
            HalfOpenData { consecutive_successes: 0 },
        ),
        !CircuitBreaker::<S, C>::failure_step(s, should_open, stamp).1,
{
}

/// Event timestamps within a single circuit's log never decrease.
pub proof fn log_timestamps_never_decrease<S: StorageBackend>(s: S, name: Seq<char>)
    requires
        s.inv(),
    ensures
        timestamps_sorted(s.log_of(name)),
{
    s.inv_log_properties(name);
}

/// With the jitter factor zero, the effective timeout equals the
/// configured base exactly, whatever was drawn.
pub proof fn zero_jitter_exact_timeout(base: u64, unit_ppm: u32)
    requires
        unit_ppm <= PPM_SCALE,
    ensures
        effective_timeout_spec(base, 0, unit_ppm) == base,
{
    lemma_effective_timeout_bounds(base, 0, unit_ppm);
}

/// With a positive jitter factor, every sampled effective timeout lies
/// between the base shortened by the whole factor and the base itself.
pub proof fn jittered_timeout_within_bounds(base: u64, jitter_ppm: u32, unit_ppm: u32)
    requires
        0 < jitter_ppm <= PPM_SCALE,
        unit_ppm <= PPM_SCALE,
    ensures
        base * (PPM_SCALE - jitter_ppm) / (PPM_SCALE as int) <= effective_timeout_spec(
            base,
            jitter_ppm,
            unit_ppm,
        ),
        effective_timeout_spec(base, jitter_ppm, unit_ppm) <= base,
{
    lemma_effective_timeout_bounds(base, jitter_ppm, unit_ppm);
}

/// A failure the classifier rejects is recorded nowhere and drives no
/// transition; the operation's error still reaches the caller.
pub proof fn classifier_veto_suppresses<
    S: StorageBackend,
    C: FailureClassifier,
    T,
    E,
    Op: FnOnce() -> Result<T, E>,
>(
    pre: CircuitBreaker<S, C>,
    post: CircuitBreaker<S, C>,
    state1: CircuitState,
    op: Op,
    r: Result<T, CircuitError<E>>,
    reset: bool,
    o_res: Result<T, E>,
    dur: u64,
)
    requires
        CircuitBreaker::outcome_witness(pre, post, state1, op, r, reset, o_res, dur),
        o_res is Err,
        !pre.classifier_trips(dur),
    ensures
        forall|n: Seq<char>| post.spec_storage().log_of(n) == pre.spec_storage().log_of(n),
        post.spec_state() == state1,
        !post.spec_transitions().opened,
        !post.spec_transitions().closed,
        r is Err,
{
}

} // verus!
