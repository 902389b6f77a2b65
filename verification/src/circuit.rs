//! The circuit breaker: configuration, the three-state machine with its
//! guards, and the facade that admits, runs and accounts for calls.
//!
//! All times are monotonic nanoseconds from the breaker's store; ratios
//! (the failure rate and the jitter factor) are parts per million, so
//! that every guard is exact integer arithmetic.

use vstd::prelude::*;

use crate::bulkhead::{BulkheadGuard, BulkheadSemaphore};
use crate::classifier::FailureClassifier;
use crate::errors::CircuitError;
use crate::storage::{count_in_window, trim_excess, StorageBackend};
use crate::{Event, EventKind};
use vstd::arithmetic::div_mod::{lemma_div_is_ordered, lemma_div_multiples_vanish};
use vstd::arithmetic::mul::lemma_mul_inequality;

verus! {

/// One million: the denominator of every parts-per-million ratio.
pub const PPM_SCALE: u32 = 1_000_000;

/// Nanoseconds in a second, for writing configuration values.
pub const NANOS_PER_SEC: u64 = 1_000_000_000;

/// Circuit breaker configuration.
#[derive(Debug, Clone, Copy)]
pub struct Config {
    /// Failures inside the window that open the circuit outright;
    /// `None` leaves only the rate rule.
    pub failure_threshold: Option<u64>,
    /// Failure ratio (parts per million of all calls in the window) at
    /// which the circuit opens; `None` disables the rate rule.
    pub failure_rate_threshold_ppm: Option<u32>,
    /// The rate rule stays quiet until the window holds this many calls.
    pub minimum_calls: u64,
    /// Length of the sliding window, in nanoseconds.
    pub failure_window: u64,
    /// How long an open circuit waits before probing, in nanoseconds.
    pub half_open_timeout: u64,
    /// Consecutive successes that close a half-open circuit.
    pub success_threshold: u64,
    /// How much of the timeout jitter may shave off, in parts per
    /// million of the whole.
    pub jitter_factor_ppm: u32,
}

impl Config {
    /// The default configuration as a mathematical value.
    pub open spec fn default_spec() -> Config {
        Config {
            failure_threshold: Option::Some(5u64),
            failure_rate_threshold_ppm: Option::None,
            minimum_calls: 20,
            failure_window: (60 * NANOS_PER_SEC) as u64,
            half_open_timeout: (30 * NANOS_PER_SEC) as u64,
            success_threshold: 2,
            jitter_factor_ppm: 0,
        }
    }

    /// The ranges every breaker demands of its configuration.
    pub open spec fn wf(&self) -> bool {
        &&& self.failure_window >= 1
        &&& self.half_open_timeout >= 1
        &&& self.success_threshold >= 1
        &&& self.jitter_factor_ppm <= PPM_SCALE
        &&& match self.failure_threshold {
            Option::Some(t) => t >= 1,
            Option::None => true,
        }
        &&& match self.failure_rate_threshold_ppm {
            Option::Some(r) => r <= PPM_SCALE,
            Option::None => true,
        }
    }
}

impl Default for Config {
    /// Five failures in a minute open the circuit; no rate rule; a
    /// half-open probe after thirty seconds, no jitter; two successes
    /// close it again.
    fn default() -> (r: Self)
        ensures
            r == Config::default_spec(),
            r.wf(),
    {
        Config {
            failure_threshold: Some(5),
            failure_rate_threshold_ppm: None,
            minimum_calls: 20,
            failure_window: 60 * NANOS_PER_SEC,
            half_open_timeout: 30 * NANOS_PER_SEC,
            success_threshold: 2,
            jitter_factor_ppm: 0,
        }
    }
}

/// What the open state remembers: when the circuit opened.
#[derive(Debug, Clone, Copy, PartialEq, Eq, Structural)]
pub struct OpenData {
    /// The store's monotonic time at the moment the circuit opened.
    pub opened_at: u64,
}

/// What the half-open state remembers: how many probes have succeeded
/// in a row.
#[derive(Debug, Clone, Copy, PartialEq, Eq, Structural)]
pub struct HalfOpenData {
    /// Consecutive successful probes since entering half-open.
    pub consecutive_successes: u64,
}

/// The three states of a circuit.
#[derive(Debug, Clone, Copy, PartialEq, Eq, Structural)]
pub enum CircuitState {
    /// Admitting and recording; may trip to open.
    Closed,
    /// Shedding calls until the (possibly jittered) timeout elapses.
    Open(OpenData),
    /// Probing: admits calls until enough succeed in a row.
    HalfOpen(HalfOpenData),
}

/// The guard of the trip event: the circuit opens when the absolute
/// failure count reaches its threshold, or when the window holds enough
/// calls and the failure ratio reaches the rate threshold. Either rule
/// alone suffices; with no calls in the window the rate rule is quiet.
pub open spec fn should_open_spec(cfg: Config, failures: nat, successes: nat) -> bool {
    ||| match cfg.failure_threshold {
        Option::Some(t) => failures >= t,
        Option::None => false,
    }
    ||| match cfg.failure_rate_threshold_ppm {
        Option::Some(r) => {
            let total = failures + successes;
            &&& total >= cfg.minimum_calls
            &&& total > 0
            &&& failures * PPM_SCALE >= r * total
        },
        Option::None => false,
    }
}

/// The trip guard, decided on counts read from the store.
pub fn should_open_check(cfg: &Config, failures: usize, successes: usize) -> (r: bool)
    ensures
        r == should_open_spec(*cfg, failures as nat, successes as nat),
{
    if let Some(t) = cfg.failure_threshold {
        if failures as u64 >= t {
            return true;
        }
    }
    if let Some(rate) = cfg.failure_rate_threshold_ppm {
        let total: u128 = failures as u128 + successes as u128;
        if total >= cfg.minimum_calls as u128 && total > 0 {
            proof {
                assert(failures as u128 <= u64::MAX as u128);
                assert(successes as u128 <= u64::MAX as u128);
                assert((rate as int) * (total as int) <= (u32::MAX as int) * (2 * (
                u64::MAX as int)))
                    by (nonlinear_arith)
                    requires
                        rate as int <= u32::MAX as int,
                        total as int <= 2 * (u64::MAX as int),
                        rate >= 0,
                        total >= 0,
                ;
                assert((failures as int) * (PPM_SCALE as int) <= (u64::MAX as int) * 1_000_000)
                    by (nonlinear_arith)
                    requires
                        failures as int <= u64::MAX as int,
                ;
            }
            if (failures as u128) * (PPM_SCALE as u128) >= (rate as u128) * total {
                return true;
            }
        }
    }
    false
}

/// The effective open-state timeout for one evaluation: the configured
/// base, shortened by up to the jitter factor, with `unit_ppm` the
/// uniform draw (in parts per million) for this evaluation. With no
/// jitter this is exactly the base.
pub open spec fn effective_timeout_spec(base: u64, jitter_ppm: u32, unit_ppm: u32) -> int {
    base * ((PPM_SCALE - jitter_ppm) + (unit_ppm * jitter_ppm) / (PPM_SCALE as int)) / (
    PPM_SCALE as int)
}

/// The jittered timeout never exceeds the base, never falls below the
/// base shortened by the whole jitter factor, and equals the base
/// exactly when the jitter factor is zero.
pub proof fn lemma_effective_timeout_bounds(base: u64, jitter_ppm: u32, unit_ppm: u32)
    requires
        jitter_ppm <= PPM_SCALE,
        unit_ppm <= PPM_SCALE,
    ensures
        effective_timeout_spec(base, jitter_ppm, unit_ppm) <= base,
        effective_timeout_spec(base, jitter_ppm, unit_ppm) >= base * (PPM_SCALE - jitter_ppm) / (
        PPM_SCALE as int),
        jitter_ppm == 0 ==> effective_timeout_spec(base, jitter_ppm, unit_ppm) == base,
        effective_timeout_spec(base, jitter_ppm, unit_ppm) >= 0,
{
    let m = PPM_SCALE as int;
    let scaled = (unit_ppm * jitter_ppm) / m;
    let factor = (m - jitter_ppm) + scaled;
    lemma_mul_inequality(unit_ppm as int, m, jitter_ppm as int);
    lemma_div_is_ordered(unit_ppm * jitter_ppm, m * jitter_ppm, m);
    lemma_div_multiples_vanish(jitter_ppm as int, m);
    assert(scaled <= jitter_ppm);
    assert(factor <= m);
    lemma_mul_inequality(factor, m, base as int);
    vstd::arithmetic::mul::lemma_mul_is_commutative(factor, base as int);
    vstd::arithmetic::mul::lemma_mul_is_commutative(m, base as int);
    lemma_div_is_ordered(base * factor, base * m, m);
    lemma_div_multiples_vanish(base as int, m);
    assert(base * factor / m <= base);
    vstd::arithmetic::mul::lemma_mul_nonnegative(unit_ppm as int, jitter_ppm as int);
    vstd::arithmetic::div_mod::lemma_div_pos_is_pos(unit_ppm * jitter_ppm, m);
    assert(scaled >= 0);
    assert(factor >= m - jitter_ppm);
    lemma_mul_inequality(m - jitter_ppm, factor, base as int);
    vstd::arithmetic::mul::lemma_mul_is_commutative(m - jitter_ppm, base as int);
    lemma_div_is_ordered(base * (m - jitter_ppm), base * factor, m);
    vstd::arithmetic::mul::lemma_mul_nonnegative(base as int, m - jitter_ppm);
    vstd::arithmetic::div_mod::lemma_div_pos_is_pos(base * (m - jitter_ppm), m);
    if jitter_ppm == 0 {
        assert(unit_ppm * 0 == 0) by (nonlinear_arith);
        assert(scaled == 0);
        assert(factor == m);
    }
}

/// Compute the effective timeout for one evaluation of the open-state
/// guard.
pub fn effective_timeout(base: u64, jitter_ppm: u32, unit_ppm: u32) -> (r: u64)
    requires
        jitter_ppm <= PPM_SCALE,
        unit_ppm <= PPM_SCALE,
    ensures
        r == effective_timeout_spec(base, jitter_ppm, unit_ppm),
        r <= base,
        jitter_ppm == 0 ==> r == base,
{
    proof {
        lemma_effective_timeout_bounds(base, jitter_ppm, unit_ppm);
        assert((unit_ppm as int) * (jitter_ppm as int) <= 1_000_000 * 1_000_000)
            by (nonlinear_arith)
            requires
                unit_ppm <= 1_000_000,
                jitter_ppm <= 1_000_000,
        ;
    }
    let scaled: u128 = (unit_ppm as u128) * (jitter_ppm as u128) / (PPM_SCALE as u128);
    let factor: u128 = (PPM_SCALE as u128 - jitter_ppm as u128) + scaled;
    proof {
        assert((base as int) * (factor as int) <= (u64::MAX as int) * 2_000_000)
            by (nonlinear_arith)
            requires
                base as int <= u64::MAX as int,
                factor as int <= 2_000_000,
                base >= 0,
                factor >= 0,
        ;
    }
    let v: u128 = (base as u128) * factor / (PPM_SCALE as u128);
    v as u64
}

/// Relies on rand::random_range: a uniform draw from the inclusive
/// integer range handed to it, from the thread-local generator.
#[verifier::external_body]
fn draw_unit_ppm() -> (r: u32)
    ensures
        r <= PPM_SCALE,
{
    rand::random_range(0u32..=1_000_000u32)
}

/// What a fallback sees when the circuit stays open: the circuit's
/// name, when it opened, and the open state itself.
#[derive(Debug, Clone)]
pub struct FallbackContext {
    /// The circuit's name.
    pub circuit_name: String,
    /// The store's monotonic time at which the circuit opened.
    pub opened_at: u64,
    /// The state the circuit was in (always open).
    pub state: CircuitState,
}

/// Which transitions the breaker's last operation drove. A host that
/// wants transition hooks reads this after each operation and fires
/// its own callbacks.
#[derive(Debug, Clone, Copy, PartialEq, Eq, Structural)]
pub struct Transitions {
    /// The circuit entered the open state.
    pub opened: bool,
    /// The circuit closed from half-open.
    pub closed: bool,
    /// The circuit entered the half-open state.
    pub half_opened: bool,
}

impl Transitions {
    /// No transition.
    pub fn none() -> (r: Self)
        ensures
            r == (Transitions { opened: false, closed: false, half_opened: false }),
    {
        Transitions { opened: false, closed: false, half_opened: false }
    }
}

/// The guard of the trip event: an open circuit cannot trip again;
/// otherwise the trip fires exactly when the window says it should.
pub open spec fn trip_fires(s: CircuitState, should_open: bool) -> bool {
    match s {
        CircuitState::Open(_) => false,
        _ => should_open,
    }
}

/// A circuit breaker around one named circuit.
///
/// The breaker owns its state machine and an event store, may carry a
/// failure classifier and a bulkhead, and advances only when one of its
/// methods is called.
#[derive(Debug)]
pub struct CircuitBreaker<S: StorageBackend, C: FailureClassifier> {
    /// The circuit's name, keying its log in the store.
    name: String,
    /// The thresholds and timeouts driving the guards.
    config: Config,
    /// The event store backing the sliding-window counts.
    storage: S,
    /// Decides which failures count; `None` counts them all.
    classifier: Option<C>,
    /// Caps concurrent calls; `None` admits any number.
    bulkhead: Option<BulkheadSemaphore>,
    /// The current state of the circuit.
    state: CircuitState,
    /// What the last operation drove.
    transitions: Transitions,
}

impl<S: StorageBackend, C: FailureClassifier> CircuitBreaker<S, C> {
    /// The circuit's name.
    pub closed spec fn spec_name(&self) -> Seq<char> {
        self.name@
    }

    /// The configuration.
    pub closed spec fn spec_config(&self) -> Config {
        self.config
    }

    /// The event store.
    pub closed spec fn spec_storage(&self) -> S {
        self.storage
    }

    /// The classifier, if one is configured.
    pub closed spec fn spec_classifier(&self) -> Option<C> {
        self.classifier
    }

    /// The bulkhead, if one is configured.
    pub closed spec fn spec_bulkhead(&self) -> Option<BulkheadSemaphore> {
        self.bulkhead
    }

    /// The current state.
    pub closed spec fn spec_state(&self) -> CircuitState {
        self.state
    }

    /// What the last operation drove.
    pub closed spec fn spec_transitions(&self) -> Transitions {
        self.transitions
    }

    /// Per-state data stays inside its bounds: an open circuit carries
    /// a positive stamp no later than the store's clock, and a
    /// half-open circuit has strictly fewer consecutive successes than
    /// the threshold that would have closed it.
    pub open spec fn state_wf(state: CircuitState, config: Config, store_now: u64) -> bool {
        match state {
            CircuitState::Closed => true,
            CircuitState::Open(o) => 1 <= o.opened_at && o.opened_at <= store_now,
            CircuitState::HalfOpen(h) => h.consecutive_successes < config.success_threshold,
        }
    }

    /// Every breaker keeps this: valid configuration, a well-formed
    /// store, per-state data in bounds, and a well-formed bulkhead.
    pub open spec fn wf(&self) -> bool {
        &&& self.spec_config().wf()
        &&& self.spec_storage().inv()
        &&& Self::state_wf(self.spec_state(), self.spec_config(), self.spec_storage().now())
        &&& match self.spec_bulkhead() {
            Option::Some(b) => b.wf(),
            Option::None => true,
        }
    }

    /// Name, configuration and classifier never change after
    /// construction.
    pub open spec fn same_shape(pre: Self, post: Self) -> bool {
        &&& post.spec_name() == pre.spec_name()
        &&& post.spec_config() == pre.spec_config()
        &&& post.spec_classifier() == pre.spec_classifier()
    }

    /// Whether the configured classifier counts a failure of this
    /// duration; with no classifier every failure counts.
    pub open spec fn classifier_trips(&self, duration: u64) -> bool {
        match self.spec_classifier() {
            Option::Some(c) => c.trips(self.spec_name(), duration),
            Option::None => true,
        }
    }

    /// What one counted success does to the state: in half-open it
    /// advances the consecutive count and closes the circuit exactly
    /// when the count reaches the threshold; elsewhere it changes
    /// nothing. The second component says whether the close fired.
    pub open spec fn success_step(s: CircuitState, threshold: u64) -> (CircuitState, bool) {
        match s {
            CircuitState::HalfOpen(h) => if h.consecutive_successes + 1 >= threshold {
                (CircuitState::Closed, true)
            } else {
                (
                    CircuitState::HalfOpen(
                        HalfOpenData {
                            consecutive_successes: (h.consecutive_successes + 1) as u64,
                        },
                    ),
                    false,
                )
            },
            _ => (s, false),
        }
    }

    /// What one counted failure does to the state: if the trip guard
    /// fires the circuit opens, stamped with `stamp`; a failure that
    /// does not trip resets a half-open circuit's progress and leaves
    /// any other state alone. The second component says whether the
    /// trip fired.
    pub open spec fn failure_step(s: CircuitState, should_open: bool, stamp: u64) -> (
        CircuitState,
        bool,
    ) {
        if trip_fires(s, should_open) {
            (CircuitState::Open(OpenData { opened_at: stamp }), true)
        } else {
            match s {
                CircuitState::HalfOpen(h) => (
                    CircuitState::HalfOpen(HalfOpenData { consecutive_successes: 0 }),
                    false,
                ),
                _ => (s, false),
            }
        }
    }

    /// Assemble a breaker from its parts, starting closed.
    pub fn from_parts(
        name: String,
        config: Config,
        storage: S,
        classifier: Option<C>,
        bulkhead: Option<BulkheadSemaphore>,
    ) -> (r: Self)
        requires
            config.wf(),
            storage.inv(),
            match bulkhead {
                Option::Some(b) => b.wf(),
                Option::None => true,
            },
        ensures
            r.wf(),
            r.spec_name() == name@,
            r.spec_config() == config,
            r.spec_storage() == storage,
            r.spec_classifier() == classifier,
            r.spec_bulkhead() == bulkhead,
            r.spec_state() == CircuitState::Closed,
            r.spec_transitions() == (Transitions {
                opened: false,
                closed: false,
                half_opened: false,
            }),
    {
        CircuitBreaker {
            name,
            config,
            storage,
            classifier,
            bulkhead,
            state: CircuitState::Closed,
            transitions: Transitions::none(),
        }
    }

    /// Whether the circuit is open.
    pub fn is_open(&self) -> (r: bool)
        ensures
            r == (self.spec_state() is Open),
    {
        match self.state {
            CircuitState::Open(_) => true,
            _ => false,
        }
    }

    /// Whether the circuit is closed.
    pub fn is_closed(&self) -> (r: bool)
        ensures
            r == (self.spec_state() is Closed),
    {
        match self.state {
            CircuitState::Closed => true,
            _ => false,
        }
    }

    /// The current state.
    pub fn state(&self) -> (r: CircuitState)
        ensures
            r == self.spec_state(),
    {
        self.state
    }

    /// The canonical name of the current state.
    pub fn state_name(&self) -> (r: &'static str)
        ensures
            self.spec_state() is Closed ==> r@ == "Closed"@,
            self.spec_state() is Open ==> r@ == "Open"@,
            self.spec_state() is HalfOpen ==> r@ == "HalfOpen"@,
    {
        match self.state {
            CircuitState::Closed => "Closed",
            CircuitState::Open(_) => "Open",
            CircuitState::HalfOpen(_) => "HalfOpen",
        }
    }

    /// The configuration the breaker was built with.
    pub fn config(&self) -> (r: &Config)
        ensures
            *r == self.spec_config(),
    {
        &self.config
    }

    /// What the last operation drove, for firing transition hooks.
    pub fn last_transitions(&self) -> (r: Transitions)
        ensures
            r == self.spec_transitions(),
    {
        self.transitions
    }

    /// The newest `limit` recorded events of this circuit, oldest
    /// first.
    pub fn event_log(&self, limit: usize) -> (r: Vec<Event>)
        requires
            self.wf(),
        ensures
            r@ == crate::storage::tail_of(
                self.spec_storage().log_of(self.spec_name()),
                limit as nat,
            ),
    {
        self.storage.event_log(self.name.as_str(), limit)
    }

    /// Record a success against the circuit's log without driving any
    /// transition.
    pub fn record_success(&mut self, duration: u64)
        requires
            old(self).wf(),
        ensures
            final(self).wf(),
            Self::same_shape(*old(self), *final(self)),
            final(self).spec_bulkhead() == old(self).spec_bulkhead(),
            final(self).spec_state() == old(self).spec_state(),
            final(self).spec_transitions() == old(self).spec_transitions(),
            crate::storage::record_post(
                old(self).spec_storage(),
                final(self).spec_storage(),
                old(self).spec_name(),
                EventKind::Success,
                duration,
            ),
    {
        self.storage.record_success(self.name.as_str(), duration);
    }

    /// Record a failure against the circuit's log without driving any
    /// transition.
    pub fn record_failure(&mut self, duration: u64)
        requires
            old(self).wf(),
        ensures
            final(self).wf(),
            Self::same_shape(*old(self), *final(self)),
            final(self).spec_bulkhead() == old(self).spec_bulkhead(),
            final(self).spec_state() == old(self).spec_state(),
            final(self).spec_transitions() == old(self).spec_transitions(),
            crate::storage::record_post(
                old(self).spec_storage(),
                final(self).spec_storage(),
                old(self).spec_name(),
                EventKind::Failure,
                duration,
            ),
    {
        self.storage.record_failure(self.name.as_str(), duration);
    }

    /// Record a success and drive the half-open accounting: the
    /// consecutive count advances and the circuit closes exactly when
    /// the count reaches the success threshold.
    pub fn record_success_and_maybe_close(&mut self, duration: u64)
        requires
            old(self).wf(),
        ensures
            final(self).wf(),
            Self::same_shape(*old(self), *final(self)),
            final(self).spec_bulkhead() == old(self).spec_bulkhead(),
            crate::storage::record_post(
                old(self).spec_storage(),
                final(self).spec_storage(),
                old(self).spec_name(),
                EventKind::Success,
                duration,
            ),
            ({
                let (st, fired) = Self::success_step(
                    old(self).spec_state(),
                    old(self).spec_config().success_threshold,
                );
                &&& final(self).spec_state() == st
                &&& final(self).spec_transitions() == (Transitions {
                    opened: false,
                    closed: fired,
                    half_opened: false,
                })
            }),
    {
        self.storage.record_success(self.name.as_str(), duration);
        let mut fired = false;
        if let CircuitState::HalfOpen(h) = self.state {
            let n = h.consecutive_successes + 1;
            if n >= self.config.success_threshold {
                self.state = CircuitState::Closed;
                fired = true;
            } else {
                self.state = CircuitState::HalfOpen(HalfOpenData { consecutive_successes: n });
            }
        }
        self.transitions = Transitions { opened: false, closed: fired, half_opened: false };
    }

    /// One counted failure, from the store `s0` and state `state0` to
    /// the breaker `post`, with `t1` the stamp of the recorded event
    /// and `t2`, `t3` the moments the guard read its two counts: the
    /// failure is appended to the log, the trip guard is evaluated on
    /// the window counts, and the state moves as `failure_step` says —
    /// an opening circuit is stamped with the store's final time.
    pub open spec fn failure_drive_witness(
        pre: Self,
        post: Self,
        state0: CircuitState,
        duration: u64,
        reset: bool,
        t1: u64,
        t2: u64,
        t3: u64,
    ) -> bool {
        let name = pre.spec_name();
        let cfg = pre.spec_config();
        let s0 = pre.spec_storage();
        let s1 = post.spec_storage();
        let log = s1.log_of(name);
        let f = count_in_window(log, EventKind::Failure, t2, cfg.failure_window);
        let su = count_in_window(log, EventKind::Success, t3, cfg.failure_window);
        let fired = trip_fires(state0, should_open_spec(cfg, f, su));
        &&& s0.now() <= t1 && t1 <= t2 && t2 <= t3 && t3 <= s1.now()
        &&& s1.cap() == s0.cap()
        &&& s1.keeps_events() == s0.keeps_events()
        &&& forall|n: Seq<char>| n != name ==> s1.log_of(n) == s0.log_of(n)
        &&& (s0.keeps_events() ==> log == trim_excess(
            s0.log_of(name).push(Event { kind: EventKind::Failure, timestamp: t1, duration }),
            s0.cap(),
        ))
        &&& (!s0.keeps_events() ==> log == s0.log_of(name))
        &&& (fired ==> post.spec_state() == CircuitState::Open(
            OpenData { opened_at: s1.now() },
        ) && s1.now() >= 1)
        &&& (!fired ==> post.spec_state() == Self::failure_step(state0, false, 0).0)
        &&& post.spec_transitions() == (Transitions {
            opened: fired,
            closed: false,
            half_opened: reset,
        })
    }

    /// Record a failure and attempt the trip: the failure is appended,
    /// the trip guard is evaluated on the window counts, and if it
    /// fires the circuit opens, stamped with the store's current time;
    /// a failure that does not trip resets half-open progress.
    pub fn record_failure_and_maybe_trip(&mut self, duration: u64)
        requires
            old(self).wf(),
        ensures
            final(self).wf(),
            Self::same_shape(*old(self), *final(self)),
            final(self).spec_bulkhead() == old(self).spec_bulkhead(),
            exists|t1: u64, t2: u64, t3: u64|
                #[trigger] Self::failure_drive_witness(
                    *old(self),
                    *final(self),
                    old(self).spec_state(),
                    duration,
                    false,
                    t1,
                    t2,
                    t3,
                ),
    {
        self.storage.record_failure(self.name.as_str(), duration);
        let ghost t1 = self.spec_storage().now();
        let failures = self.storage.failure_count(self.name.as_str(), self.config.failure_window);
        let ghost t2 = self.spec_storage().now();
        let successes = self.storage.success_count(self.name.as_str(), self.config.failure_window);
        let ghost t3 = self.spec_storage().now();
        let should = should_open_check(&self.config, failures, successes);
        let fired = match self.state {
            CircuitState::Open(_) => false,
            _ => should,
        };
        if fired {
            let stamp = self.storage.monotonic_time();
            self.state = CircuitState::Open(OpenData { opened_at: stamp });
        } else if let CircuitState::HalfOpen(_) = self.state {
            self.state = CircuitState::HalfOpen(HalfOpenData { consecutive_successes: 0 });
        }
        self.transitions = Transitions { opened: fired, closed: false, half_opened: false };
        proof {
            assert(Self::failure_drive_witness(
                *old(self),
                *self,
                old(self).spec_state(),
                duration,
                false,
                t1,
                t2,
                t3,
            ));
        }
    }

    /// The trip guard evaluated without recording anything: `t2` and
    /// `t3` are the moments the two counts were read; if the guard
    /// fires the circuit opens, stamped with the store's final time,
    /// and otherwise nothing changes.
    pub open spec fn trip_check_witness(
        pre: Self,
        post: Self,
        fired: bool,
        t2: u64,
        t3: u64,
    ) -> bool {
        let name = pre.spec_name();
        let cfg = pre.spec_config();
        let s0 = pre.spec_storage();
        let s1 = post.spec_storage();
        let log = s1.log_of(name);
        let f = count_in_window(log, EventKind::Failure, t2, cfg.failure_window);
        let su = count_in_window(log, EventKind::Success, t3, cfg.failure_window);
        &&& s0.now() <= t2 && t2 <= t3 && t3 <= s1.now()
        &&& forall|n: Seq<char>| s1.log_of(n) == s0.log_of(n)
        &&& s1.cap() == s0.cap()
        &&& s1.keeps_events() == s0.keeps_events()
        &&& fired == trip_fires(pre.spec_state(), should_open_spec(cfg, f, su))
        &&& (fired ==> post.spec_state() == CircuitState::Open(
            OpenData { opened_at: s1.now() },
        ) && s1.now() >= 1)
        &&& (!fired ==> post.spec_state() == pre.spec_state())
        &&& post.spec_transitions() == (Transitions {
            opened: fired,
            closed: false,
            half_opened: false,
        })
    }

    /// Evaluate the trip guard against the store and open the circuit
    /// if it fires, without recording anything. Returns whether the
    /// circuit opened.
    pub fn check_and_trip(&mut self) -> (r: bool)
        requires
            old(self).wf(),
        ensures
            final(self).wf(),
            Self::same_shape(*old(self), *final(self)),
            final(self).spec_bulkhead() == old(self).spec_bulkhead(),
            exists|t2: u64, t3: u64|
                #[trigger] Self::trip_check_witness(*old(self), *final(self), r, t2, t3),
            r == (final(self).spec_transitions().opened),
    {
        let failures = self.storage.failure_count(self.name.as_str(), self.config.failure_window);
        let ghost t2 = self.spec_storage().now();
        let successes = self.storage.success_count(self.name.as_str(), self.config.failure_window);
        let ghost t3 = self.spec_storage().now();
        let should = should_open_check(&self.config, failures, successes);
        let fired = match self.state {
            CircuitState::Open(_) => false,
            _ => should,
        };
        if fired {
            let stamp = self.storage.monotonic_time();
            self.state = CircuitState::Open(OpenData { opened_at: stamp });
        }
        self.transitions = Transitions { opened: fired, closed: false, half_opened: false };
        proof {
            assert(Self::trip_check_witness(*old(self), *self, fired, t2, t3));
        }
        fired
    }

    /// One success recorded and accounted, from the breaker `pre` (with
    /// the state already advanced to `state1` by the admission phase)
    /// to `post`: the success is appended, stamped with the store's
    /// final time, and the state moves as `success_step` says.
    pub open spec fn success_outcome_clauses(
        pre: Self,
        post: Self,
        state1: CircuitState,
        dur: u64,
        reset: bool,
    ) -> bool {
        let (st, fired) = Self::success_step(state1, pre.spec_config().success_threshold);
        &&& crate::storage::record_post(
            pre.spec_storage(),
            post.spec_storage(),
            pre.spec_name(),
            EventKind::Success,
            dur,
        )
        &&& post.spec_state() == st
        &&& post.spec_transitions() == (Transitions {
            opened: false,
            closed: fired,
            half_opened: reset,
        })
    }

    /// The outcome phase of one admitted call: the operation returned
    /// `o_res` (a value its contract allows) after `dur` nanoseconds.
    /// A success is recorded and may close the circuit. A failure is
    /// surfaced unchanged; it is recorded and may trip the circuit
    /// exactly when the classifier counts it, and a rejected failure
    /// leaves both the store and the state untouched.
    pub open spec fn outcome_witness<T, E, Op: FnOnce() -> Result<T, E>>(
        pre: Self,
        post: Self,
        state1: CircuitState,
        op: Op,
        r: Result<T, CircuitError<E>>,
        reset: bool,
        o_res: Result<T, E>,
        dur: u64,
    ) -> bool {
        &&& call_ensures(op, (), o_res)
        &&& match o_res {
            Result::Ok(v) => {
                &&& r == Result::<T, CircuitError<E>>::Ok(v)
                &&& Self::success_outcome_clauses(pre, post, state1, dur, reset)
            },
            Result::Err(e) => {
                &&& r == Result::<T, CircuitError<E>>::Err(CircuitError::Execution(e))
                &&& if pre.classifier_trips(dur) {
                    exists|t1: u64, t2: u64, t3: u64|
                        #[trigger] Self::failure_drive_witness(
                            pre,
                            post,
                            state1,
                            dur,
                            reset,
                            t1,
                            t2,
                            t3,
                        )
                } else {
                    &&& forall|n: Seq<char>|
                        post.spec_storage().log_of(n) == pre.spec_storage().log_of(n)
                    &&& post.spec_storage().now() >= pre.spec_storage().now()
                    &&& post.spec_storage().cap() == pre.spec_storage().cap()
                    &&& post.spec_storage().keeps_events() == pre.spec_storage().keeps_events()
                    &&& post.spec_state() == state1
                    &&& post.spec_transitions() == (Transitions {
                        opened: false,
                        closed: false,
                        half_opened: reset,
                    })
                }
            },
        }
    }

    /// An admitted call ran the operation: some allowed outcome and
    /// some measured duration account for what happened.
    pub open spec fn executed_post<T, E, Op: FnOnce() -> Result<T, E>>(
        pre: Self,
        post: Self,
        state1: CircuitState,
        op: Op,
        r: Result<T, CircuitError<E>>,
        reset: bool,
    ) -> bool {
        exists|o_res: Result<T, E>, dur: u64|
            #[trigger] Self::outcome_witness(pre, post, state1, op, r, reset, o_res, dur)
    }

    /// The bulkhead has no free permit.
    pub open spec fn admission_rejected(pre: Self) -> bool {
        match pre.spec_bulkhead() {
            Option::Some(b) => b.spec_acquired() >= b.spec_limit(),
            Option::None => false,
        }
    }

    /// The open-to-half-open guard's one evaluation: at some moment `t`
    /// no earlier than the store's clock, with `u` the uniform draw,
    /// the elapsed time since the circuit opened reached the effective
    /// timeout exactly when `reset` says so. A circuit that is not
    /// open never resets.
    pub open spec fn reset_outcome_witness(pre: Self, reset: bool, t: u64, u: u32) -> bool {
        match pre.spec_state() {
            CircuitState::Open(o) => {
                let eff = effective_timeout_spec(
                    pre.spec_config().half_open_timeout,
                    pre.spec_config().jitter_factor_ppm,
                    u,
                );
                &&& u <= PPM_SCALE
                &&& t >= pre.spec_storage().now()
                &&& t >= o.opened_at
                &&& (reset <==> t - o.opened_at >= eff)
            },
            _ => !reset,
        }
    }

    /// One admitted call, from `pre` to `post`: the open-to-half-open
    /// guard was evaluated once (`reset` says whether it fired); a
    /// still-open circuit rejects with `Open`; a half-open circuit
    /// that has already probed enough rejects with
    /// `HalfOpenLimitReached` (defensively — the close transition
    /// fires before this can be reached); otherwise the operation ran.
    pub open spec fn call_admitted_post<T, E, Op: FnOnce() -> Result<T, E>>(
        pre: Self,
        post: Self,
        op: Op,
        r: Result<T, CircuitError<E>>,
        reset: bool,
    ) -> bool {
        let name = pre.spec_name();
        let cfg = pre.spec_config();
        let state1 = if reset {
            CircuitState::HalfOpen(HalfOpenData { consecutive_successes: 0 })
        } else {
            pre.spec_state()
        };
        &&& (exists|t: u64, u: u32| #[trigger] Self::reset_outcome_witness(pre, reset, t, u))
        &&& match state1 {
            CircuitState::Open(o) => {
                &&& r matches Result::Err(CircuitError::Open { circuit, opened_at })
                    && circuit@ == name && opened_at == o.opened_at
                &&& post.spec_state() == state1
                &&& forall|n: Seq<char>|
                    post.spec_storage().log_of(n) == pre.spec_storage().log_of(n)
                &&& post.spec_storage().now() >= pre.spec_storage().now()
                &&& post.spec_transitions() == (Transitions {
                    opened: false,
                    closed: false,
                    half_opened: false,
                })
            },
            CircuitState::HalfOpen(h) => {
                if h.consecutive_successes >= cfg.success_threshold {
                    &&& r matches Result::Err(CircuitError::HalfOpenLimitReached { circuit })
                        && circuit@ == name
                    &&& post.spec_state() == state1
                    &&& forall|n: Seq<char>|
                        post.spec_storage().log_of(n) == pre.spec_storage().log_of(n)
                    &&& post.spec_storage().now() >= pre.spec_storage().now()
                    &&& post.spec_transitions() == (Transitions {
                        opened: false,
                        closed: false,
                        half_opened: reset,
                    })
                } else {
                    Self::executed_post(pre, post, state1, op, r, reset)
                }
            },
            CircuitState::Closed => Self::executed_post(pre, post, state1, op, r, reset),
        }
    }

    /// What one call through the breaker does: a saturated bulkhead
    /// rejects it outright, with nothing else touched; otherwise the
    /// call is admitted and `call_admitted_post` describes it. The
    /// bulkhead's permit balance is the same after the call either
    /// way.
    pub open spec fn call_post<T, E, Op: FnOnce() -> Result<T, E>>(
        pre: Self,
        post: Self,
        op: Op,
        r: Result<T, CircuitError<E>>,
    ) -> bool {
        if Self::admission_rejected(pre) {
            &&& (r matches Result::Err(CircuitError::BulkheadFull { circuit, limit })
                && circuit@ == pre.spec_name() && (match pre.spec_bulkhead() {
                Option::Some(b) => limit == b.spec_limit(),
                Option::None => false,
            }))
            &&& post.spec_state() == pre.spec_state()
            &&& post.spec_storage() == pre.spec_storage()
            &&& post.spec_transitions() == (Transitions {
                opened: false,
                closed: false,
                half_opened: false,
            })
        } else {
            exists|reset: bool| #[trigger] Self::call_admitted_post(pre, post, op, r, reset)
        }
    }

    /// Give back the permit taken at admission, if one was taken.
    fn release_opt(&mut self, permit: Option<BulkheadGuard>)
        requires
            (permit is Some) == (old(self).spec_bulkhead() is Some),
            match old(self).spec_bulkhead() {
                Option::Some(b) => b.wf() && b.spec_acquired() >= 1,
                Option::None => true,
            },
        ensures
            final(self).spec_name() == old(self).spec_name(),
            final(self).spec_config() == old(self).spec_config(),
            final(self).spec_classifier() == old(self).spec_classifier(),
            final(self).spec_storage() == old(self).spec_storage(),
            final(self).spec_state() == old(self).spec_state(),
            final(self).spec_transitions() == old(self).spec_transitions(),
            match (old(self).spec_bulkhead(), final(self).spec_bulkhead()) {
                (Option::Some(b0), Option::Some(b1)) => b1.wf() && b1.spec_limit()
                    == b0.spec_limit() && b1.spec_acquired() == b0.spec_acquired() - 1,
                (Option::None, Option::None) => true,
                _ => false,
            },
    {
        match permit {
            Some(g) => {
                match &mut self.bulkhead {
                    Some(b) => b.release(g),
                    None => {
                        proof {
                            assert(false);
                        }
                    },
                }
            },
            None => {},
        }
    }

    /// Run the operation and account for its outcome; `pre` is the
    /// breaker as the caller saw it before admission, `reset` whether
    /// the admission phase moved the circuit to half-open, and
    /// `permit` the bulkhead permit to give back when done.
    fn execute_call<T, E, Op: FnOnce() -> Result<T, E>>(
        &mut self,
        op: Op,
        reset: bool,
        permit: Option<BulkheadGuard>,
        Ghost(pre): Ghost<Self>,
    ) -> (r: Result<T, CircuitError<E>>)
        requires
            old(self).wf(),
            call_requires(op, ()),
            !(old(self).spec_state() is Open),
            Self::same_shape(pre, *old(self)),
            old(self).spec_state() == (if reset {
                CircuitState::HalfOpen(HalfOpenData { consecutive_successes: 0 })
            } else {
                pre.spec_state()
            }),
            forall|n: Seq<char>|
                old(self).spec_storage().log_of(n) == pre.spec_storage().log_of(n),
            old(self).spec_storage().now() >= pre.spec_storage().now(),
            old(self).spec_storage().cap() == pre.spec_storage().cap(),
            old(self).spec_storage().keeps_events() == pre.spec_storage().keeps_events(),
            (permit is Some) == (old(self).spec_bulkhead() is Some),
            match old(self).spec_bulkhead() {
                Option::Some(b) => b.wf() && b.spec_acquired() >= 1,
                Option::None => true,
            },
        ensures
            final(self).wf(),
            Self::same_shape(*old(self), *final(self)),
            match (old(self).spec_bulkhead(), final(self).spec_bulkhead()) {
                (Option::Some(b0), Option::Some(b1)) => b1.wf() && b1.spec_limit()
                    == b0.spec_limit() && b1.spec_acquired() == b0.spec_acquired() - 1,
                (Option::None, Option::None) => true,
                _ => false,
            },
            Self::executed_post(pre, *final(self), old(self).spec_state(), op, r, reset),
    {
        let ghost state1 = self.spec_state();
        let start = self.storage.monotonic_time();
        let result = op();
        let end = self.storage.monotonic_time();
        let duration = end - start;
        match result {
            Ok(v) => {
                self.storage.record_success(self.name.as_str(), duration);
                let mut fired = false;
                if let CircuitState::HalfOpen(h) = self.state {
                    let n = h.consecutive_successes + 1;
                    if n >= self.config.success_threshold {
                        self.state = CircuitState::Closed;
                        fired = true;
                    } else {
                        self.state = CircuitState::HalfOpen(
                            HalfOpenData { consecutive_successes: n },
                        );
                    }
                }
                self.transitions = Transitions { opened: false, closed: fired, half_opened: reset };
                self.release_opt(permit);
                proof {
                    assert(Self::outcome_witness(
                        pre,
                        *self,
                        state1,
                        op,
                        Result::<T, CircuitError<E>>::Ok(v),
                        reset,
                        Result::<T, E>::Ok(v),
                        duration,
                    ));
                }
                Ok(v)
            },
            Err(e) => {
                let verdict = match &self.classifier {
                    Some(c) => c.should_trip(self.name.as_str(), duration),
                    None => true,
                };
                if verdict {
                    self.storage.record_failure(self.name.as_str(), duration);
                    let ghost t1 = self.spec_storage().now();
                    let failures = self.storage.failure_count(
                        self.name.as_str(),
                        self.config.failure_window,
                    );
                    let ghost t2 = self.spec_storage().now();
                    let successes = self.storage.success_count(
                        self.name.as_str(),
                        self.config.failure_window,
                    );
                    let ghost t3 = self.spec_storage().now();
                    let should = should_open_check(&self.config, failures, successes);
                    let fired = match self.state {
                        CircuitState::Open(_) => false,
                        _ => should,
                    };
                    if fired {
                        let stamp = self.storage.monotonic_time();
                        self.state = CircuitState::Open(OpenData { opened_at: stamp });
                    } else if let CircuitState::HalfOpen(_) = self.state {
                        self.state = CircuitState::HalfOpen(
                            HalfOpenData { consecutive_successes: 0 },
                        );
                    }
                    self.transitions = Transitions {
                        opened: fired,
                        closed: false,
                        half_opened: reset,
                    };
                    self.release_opt(permit);
                    proof {
                        assert(Self::failure_drive_witness(
                            pre,
                            *self,
                            state1,
                            duration,
                            reset,
                            t1,
                            t2,
                            t3,
                        ));
                        assert(Self::outcome_witness(
                            pre,
                            *self,
                            state1,
                            op,
                            Result::<T, CircuitError<E>>::Err(CircuitError::Execution(e)),
                            reset,
                            Result::<T, E>::Err(e),
                            duration,
                        ));
                    }
                } else {
                    self.transitions = Transitions {
                        opened: false,
                        closed: false,
                        half_opened: reset,
                    };
                    self.release_opt(permit);
                    proof {
                        assert(Self::outcome_witness(
                            pre,
                            *self,
                            state1,
                            op,
                            Result::<T, CircuitError<E>>::Err(CircuitError::Execution(e)),
                            reset,
                            Result::<T, E>::Err(e),
                            duration,
                        ));
                    }
                }
                Err(CircuitError::Execution(e))
            },
        }
    }

    /// Run a fallible operation under the breaker's protection: take a
    /// bulkhead permit (or reject), let an open circuit probe once its
    /// timeout has elapsed, reject while it stays open, run the
    /// operation, record and account for the outcome, and give the
    /// permit back whether the operation returned or failed.
    pub fn call<T, E, Op: FnOnce() -> Result<T, E>>(&mut self, op: Op) -> (r: Result<
        T,
        CircuitError<E>,
    >)
        requires
            old(self).wf(),
            call_requires(op, ()),
        ensures
            final(self).wf(),
            Self::same_shape(*old(self), *final(self)),
            final(self).spec_bulkhead() == old(self).spec_bulkhead(),
            Self::call_post(*old(self), *final(self), op, r),
            (match r {
                Result::Err(CircuitError::HalfOpenLimitReached { .. }) => false,
                _ => true,
            }),
    {
        let ghost pre = *self;
        let mut permit: Option<BulkheadGuard> = None;
        let mut rejected = false;
        let mut lim: u64 = 0;
        match &mut self.bulkhead {
            Some(b) => {
                match b.try_acquire() {
                    Some(g) => {
                        permit = Some(g);
                    },
                    None => {
                        rejected = true;
                        lim = b.limit();
                    },
                }
            },
            None => {},
        }
        if rejected {
            self.transitions = Transitions::none();
            proof {
                crate::bulkhead::lemma_bulkhead_ext(
                    pre.spec_bulkhead().unwrap(),
                    self.spec_bulkhead().unwrap(),
                );
            }
            return Err(
                CircuitError::BulkheadFull { circuit: self.name.clone(), limit: lim },
            );
        }
        let mut reset = false;
        let ghost mut reset_t: u64 = 0;
        let ghost mut reset_u: u32 = 0;
        if let CircuitState::Open(o) = self.state {
            let now = self.storage.monotonic_time();
            let u = draw_unit_ppm();
            let eff = effective_timeout(
                self.config.half_open_timeout,
                self.config.jitter_factor_ppm,
                u,
            );
            proof {
                reset_t = now;
                reset_u = u;
            }
            if now - o.opened_at >= eff {
                self.state = CircuitState::HalfOpen(HalfOpenData { consecutive_successes: 0 });
                reset = true;
            }
        }
        proof {
            assert(Self::reset_outcome_witness(pre, reset, reset_t, reset_u));
        }
        match self.state {
            CircuitState::Open(o) => {
                self.transitions = Transitions::none();
                self.release_opt(permit);
                let r = Err(
                    CircuitError::Open { circuit: self.name.clone(), opened_at: o.opened_at },
                );
                proof {
                    if pre.spec_bulkhead() is Some {
                        crate::bulkhead::lemma_bulkhead_ext(
                            pre.spec_bulkhead().unwrap(),
                            self.spec_bulkhead().unwrap(),
                        );
                    }
                    assert(Self::call_admitted_post(pre, *self, op, r, reset));
                }
                r
            },
            CircuitState::HalfOpen(h) => {
                if h.consecutive_successes >= self.config.success_threshold {
                    // Defensive: the close transition fires the moment
                    // the threshold is reached, so under the breaker's
                    // invariant this guard can never be taken.
                    proof {
                        assert(false);
                    }
                    self.transitions = Transitions {
                        opened: false,
                        closed: false,
                        half_opened: reset,
                    };
                    self.release_opt(permit);
                    let r = Err(CircuitError::HalfOpenLimitReached { circuit: self.name.clone() });
                    proof {
                        if pre.spec_bulkhead() is Some {
                            crate::bulkhead::lemma_bulkhead_ext(
                                pre.spec_bulkhead().unwrap(),
                                self.spec_bulkhead().unwrap(),
                            );
                        }
                        assert(Self::call_admitted_post(pre, *self, op, r, reset));
                    }
                    r
                } else {
                    let r = self.execute_call(op, reset, permit, Ghost(pre));
                    proof {
                        if pre.spec_bulkhead() is Some {
                            crate::bulkhead::lemma_bulkhead_ext(
                                pre.spec_bulkhead().unwrap(),
                                self.spec_bulkhead().unwrap(),
                            );
                        }
                        assert(Self::call_admitted_post(pre, *self, op, r, reset));
                    }
                    r
                }
            },
            CircuitState::Closed => {
                let r = self.execute_call(op, reset, permit, Ghost(pre));
                proof {
                    if pre.spec_bulkhead() is Some {
                        crate::bulkhead::lemma_bulkhead_ext(
                            pre.spec_bulkhead().unwrap(),
                            self.spec_bulkhead().unwrap(),
                        );
                    }
                    assert(Self::call_admitted_post(pre, *self, op, r, reset));
                }
                r
            },
        }
    }

    /// One fallback invocation while the circuit stayed open: the
    /// fallback saw the circuit's name, the opening stamp and the open
    /// state, and its outcome (a value its contract allows) became the
    /// call's result, the error wrapped as `Execution`.
    pub open spec fn fallback_witness<T, E, Fb: FnOnce(FallbackContext) -> Result<T, E>>(
        pre: Self,
        fb: Fb,
        r: Result<T, CircuitError<E>>,
        o: OpenData,
        ctx: FallbackContext,
        o_res: Result<T, E>,
    ) -> bool {
        &&& ctx.circuit_name@ == pre.spec_name()
        &&& ctx.opened_at == o.opened_at
        &&& ctx.state == CircuitState::Open(o)
        &&& call_ensures(fb, (ctx,), o_res)
        &&& match o_res {
            Result::Ok(v) => r == Result::<T, CircuitError<E>>::Ok(v),
            Result::Err(e) => r == Result::<T, CircuitError<E>>::Err(CircuitError::Execution(e)),
        }
    }

    /// A still-open circuit ran the fallback: some allowed outcome of
    /// the fallback became the result, and nothing else moved.
    pub open spec fn fallback_open_arm<T, E, Fb: FnOnce(FallbackContext) -> Result<T, E>>(
        pre: Self,
        post: Self,
        fb: Fb,
        r: Result<T, CircuitError<E>>,
        o: OpenData,
    ) -> bool {
        &&& exists|ctx: FallbackContext, o_res: Result<T, E>|
            #[trigger] Self::fallback_witness(pre, fb, r, o, ctx, o_res)
        &&& post.spec_state() == CircuitState::Open(o)
        &&& forall|n: Seq<char>| post.spec_storage().log_of(n) == pre.spec_storage().log_of(n)
        &&& post.spec_storage().now() >= pre.spec_storage().now()
        &&& post.spec_transitions() == (Transitions {
            opened: false,
            closed: false,
            half_opened: false,
        })
    }

    /// One admitted call with a fallback, from `pre` to `post`: as
    /// `call_admitted_post`, except that a still-open circuit runs the
    /// fallback instead of failing with `Open`.
    pub open spec fn call_with_fallback_admitted_post<
        T,
        E,
        Op: FnOnce() -> Result<T, E>,
        Fb: FnOnce(FallbackContext) -> Result<T, E>,
    >(
        pre: Self,
        post: Self,
        op: Op,
        fb: Fb,
        r: Result<T, CircuitError<E>>,
        reset: bool,
    ) -> bool {
        let name = pre.spec_name();
        let cfg = pre.spec_config();
        let state1 = if reset {
            CircuitState::HalfOpen(HalfOpenData { consecutive_successes: 0 })
        } else {
            pre.spec_state()
        };
        &&& (exists|t: u64, u: u32| #[trigger] Self::reset_outcome_witness(pre, reset, t, u))
        &&& match state1 {
            CircuitState::Open(o) => Self::fallback_open_arm(pre, post, fb, r, o),
            CircuitState::HalfOpen(h) => {
                &&& (h.consecutive_successes >= cfg.success_threshold ==> {
                    &&& r matches Result::Err(CircuitError::HalfOpenLimitReached { circuit })
                        && circuit@ == name
                    &&& post.spec_state() == state1
                    &&& forall|n: Seq<char>|
                        post.spec_storage().log_of(n) == pre.spec_storage().log_of(n)
                    &&& post.spec_storage().now() >= pre.spec_storage().now()
                    &&& post.spec_transitions() == (Transitions {
                        opened: false,
                        closed: false,
                        half_opened: reset,
                    })
                })
                &&& (h.consecutive_successes < cfg.success_threshold ==> Self::executed_post(
                    pre,
                    post,
                    state1,
                    op,
                    r,
                    reset,
                ))
            },
            CircuitState::Closed => Self::executed_post(pre, post, state1, op, r, reset),
        }
    }

    /// Run a fallible operation as [`Self::call`] does, but while the
    /// circuit stays open, run the fallback instead of failing fast.
    pub fn call_with_fallback<
        T,
        E,
        Op: FnOnce() -> Result<T, E>,
        Fb: FnOnce(FallbackContext) -> Result<T, E>,
    >(&mut self, op: Op, fallback: Fb) -> (r: Result<T, CircuitError<E>>)
        requires
            old(self).wf(),
            call_requires(op, ()),
            forall|ctx: FallbackContext|
                ctx.circuit_name@ == old(self).spec_name() ==> #[trigger] call_requires(
                    fallback,
                    (ctx,),
                ),
        ensures
            final(self).wf(),
            Self::same_shape(*old(self), *final(self)),
            final(self).spec_bulkhead() == old(self).spec_bulkhead(),
            if Self::admission_rejected(*old(self)) {
                &&& (r matches Result::Err(CircuitError::BulkheadFull { circuit, limit })
                    && circuit@ == old(self).spec_name() && (match old(self).spec_bulkhead() {
                    Option::Some(b) => limit == b.spec_limit(),
                    Option::None => false,
                }))
                &&& final(self).spec_state() == old(self).spec_state()
                &&& final(self).spec_storage() == old(self).spec_storage()
                &&& final(self).spec_transitions() == (Transitions {
                    opened: false,
                    closed: false,
                    half_opened: false,
                })
            } else {
                exists|reset: bool|
                    #[trigger] Self::call_with_fallback_admitted_post(
                        *old(self),
                        *final(self),
                        op,
                        fallback,
                        r,
                        reset,
                    )
            },
            (match r {
                Result::Err(CircuitError::HalfOpenLimitReached { .. }) => false,
                _ => true,
            }),
    {
        let ghost pre = *self;
        let mut permit: Option<BulkheadGuard> = None;
        let mut rejected = false;
        let mut lim: u64 = 0;
        match &mut self.bulkhead {
            Some(b) => {
                match b.try_acquire() {
                    Some(g) => {
                        permit = Some(g);
                    },
                    None => {
                        rejected = true;
                        lim = b.limit();
                    },
                }
            },
            None => {},
        }
        if rejected {
            self.transitions = Transitions::none();
            proof {
                crate::bulkhead::lemma_bulkhead_ext(
                    pre.spec_bulkhead().unwrap(),
                    self.spec_bulkhead().unwrap(),
                );
            }
            return Err(
                CircuitError::BulkheadFull { circuit: self.name.clone(), limit: lim },
            );
        }
        let mut reset = false;
        let ghost mut reset_t: u64 = 0;
        let ghost mut reset_u: u32 = 0;
        if let CircuitState::Open(o) = self.state {
            let now = self.storage.monotonic_time();
            let u = draw_unit_ppm();
            let eff = effective_timeout(
                self.config.half_open_timeout,
                self.config.jitter_factor_ppm,
                u,
            );
            proof {
                reset_t = now;
                reset_u = u;
            }
            if now - o.opened_at >= eff {
                self.state = CircuitState::HalfOpen(HalfOpenData { consecutive_successes: 0 });
                reset = true;
            }
        }
        proof {
            assert(Self::reset_outcome_witness(pre, reset, reset_t, reset_u));
        }
        match self.state {
            CircuitState::Open(o) => {
                self.transitions = Transitions::none();
                self.release_opt(permit);
                let ctx = FallbackContext {
                    circuit_name: self.name.clone(),
                    opened_at: o.opened_at,
                    state: CircuitState::Open(o),
                };
                let ghost g_ctx = ctx;
                proof {
                    assert(g_ctx.circuit_name@ == old(self).spec_name());
                    assert(call_requires(fallback, (g_ctx,)));
                }
                let fb_res = fallback(ctx);
                let ghost g_fb = fb_res;
                let r = match fb_res {
                    Ok(v) => Ok(v),
                    Err(e) => Err(CircuitError::Execution(e)),
                };
                proof {
                    assert(Self::fallback_witness(pre, fallback, r, o, g_ctx, g_fb));
                    assert(Self::fallback_open_arm(pre, *self, fallback, r, o));
                    if pre.spec_bulkhead() is Some {
                        crate::bulkhead::lemma_bulkhead_ext(
                            pre.spec_bulkhead().unwrap(),
                            self.spec_bulkhead().unwrap(),
                        );
                    }
                    assert(Self::call_with_fallback_admitted_post(
                        pre,
                        *self,
                        op,
                        fallback,
                        r,
                        reset,
                    ));
                }
                r
            },
            CircuitState::HalfOpen(h) => {
                if h.consecutive_successes >= self.config.success_threshold {
                    // Defensive: unreachable under the breaker's
                    // invariant, as in `call`.
                    proof {
                        assert(false);
                    }
                    self.transitions = Transitions {
                        opened: false,
                        closed: false,
                        half_opened: reset,
                    };
                    self.release_opt(permit);
                    let r = Err(CircuitError::HalfOpenLimitReached { circuit: self.name.clone() });
                    proof {
                        if pre.spec_bulkhead() is Some {
                            crate::bulkhead::lemma_bulkhead_ext(
                                pre.spec_bulkhead().unwrap(),
                                self.spec_bulkhead().unwrap(),
                            );
                        }
                        assert(Self::call_with_fallback_admitted_post(
                            pre,
                            *self,
                            op,
                            fallback,
                            r,
                            reset,
                        ));
                    }
                    r
                } else {
                    let r = self.execute_call(op, reset, permit, Ghost(pre));
                    proof {
                        if pre.spec_bulkhead() is Some {
                            crate::bulkhead::lemma_bulkhead_ext(
                                pre.spec_bulkhead().unwrap(),
                                self.spec_bulkhead().unwrap(),
                            );
                        }
                        assert(Self::call_with_fallback_admitted_post(
                            pre,
                            *self,
                            op,
                            fallback,
                            r,
                            reset,
                        ));
                    }
                    r
                }
            },
            CircuitState::Closed => {
                let r = self.execute_call(op, reset, permit, Ghost(pre));
                proof {
                    if pre.spec_bulkhead() is Some {
                        crate::bulkhead::lemma_bulkhead_ext(
                            pre.spec_bulkhead().unwrap(),
                            self.spec_bulkhead().unwrap(),
                        );
                    }
                    assert(Self::call_with_fallback_admitted_post(
                        pre,
                        *self,
                        op,
                        fallback,
                        r,
                        reset,
                    ));
                }
                r
            },
        }
    }

    /// Take a bulkhead permit out of band, as a host integrating the
    /// breaker into its own admission flow would. Returns `None` when
    /// no bulkhead is configured or no permit is free.
    pub fn try_acquire_permit(&mut self) -> (r: Option<BulkheadGuard>)
        requires
            old(self).wf(),
        ensures
            final(self).wf(),
            Self::same_shape(*old(self), *final(self)),
            final(self).spec_state() == old(self).spec_state(),
            final(self).spec_storage() == old(self).spec_storage(),
            final(self).spec_transitions() == old(self).spec_transitions(),
            match old(self).spec_bulkhead() {
                Option::None => r is None && final(self).spec_bulkhead() == old(
                    self,
                ).spec_bulkhead(),
                Option::Some(b) => if b.spec_acquired() < b.spec_limit() {
                    &&& r is Some
                    &&& (match final(self).spec_bulkhead() {
                        Option::Some(b1) => b1.spec_limit() == b.spec_limit()
                            && b1.spec_acquired() == b.spec_acquired() + 1,
                        Option::None => false,
                    })
                } else {
                    r is None && final(self).spec_bulkhead() == old(self).spec_bulkhead()
                },
            },
    {
        let ghost pre = *self;
        let r = match &mut self.bulkhead {
            Some(b) => b.try_acquire(),
            None => None,
        };
        proof {
            if pre.spec_bulkhead() is Some && r is None {
                crate::bulkhead::lemma_bulkhead_ext(
                    pre.spec_bulkhead().unwrap(),
                    self.spec_bulkhead().unwrap(),
                );
            }
        }
        r
    }

    /// Give back a permit taken with [`Self::try_acquire_permit`].
    pub fn release_permit(&mut self, guard: BulkheadGuard)
        requires
            old(self).wf(),
            old(self).spec_bulkhead() matches Option::Some(b) && b.spec_acquired() >= 1,
        ensures
            final(self).wf(),
            Self::same_shape(*old(self), *final(self)),
            final(self).spec_state() == old(self).spec_state(),
            final(self).spec_storage() == old(self).spec_storage(),
            final(self).spec_transitions() == old(self).spec_transitions(),
            match (old(self).spec_bulkhead(), final(self).spec_bulkhead()) {
                (Option::Some(b0), Option::Some(b1)) => b1.spec_limit() == b0.spec_limit()
                    && b1.spec_acquired() == b0.spec_acquired() - 1,
                _ => false,
            },
    {
        self.release_opt(Some(guard));
    }

    /// Drop the circuit's recorded events and start over in the closed
    /// state. Fires no transition hooks.
    pub fn reset(&mut self)
        requires
            old(self).wf(),
        ensures
            final(self).wf(),
            Self::same_shape(*old(self), *final(self)),
            final(self).spec_bulkhead() == old(self).spec_bulkhead(),
            final(self).spec_state() == CircuitState::Closed,
            final(self).spec_transitions() == (Transitions {
                opened: false,
                closed: false,
                half_opened: false,
            }),
            final(self).spec_storage().log_of(old(self).spec_name()) == Seq::<Event>::empty(),
            forall|n: Seq<char>|
                n != old(self).spec_name() ==> final(self).spec_storage().log_of(n) == old(
                    self,
                ).spec_storage().log_of(n),
            final(self).spec_storage().now() == old(self).spec_storage().now(),
            final(self).spec_storage().cap() == old(self).spec_storage().cap(),
            final(self).spec_storage().keeps_events() == old(self).spec_storage().keeps_events(),
    {
        self.storage.clear(self.name.as_str());
        self.state = CircuitState::Closed;
        self.transitions = Transitions::none();
    }
}

impl CircuitBreaker<crate::storage::MemoryStorage, crate::classifier::DefaultClassifier> {
    /// Create a breaker on a fresh in-memory store, with no classifier
    /// and no bulkhead.
    pub fn new(name: String, config: Config) -> (r: Self)
        requires
            config.wf(),
        ensures
            r.wf(),
            r.spec_name() == name@,
            r.spec_config() == config,
            r.spec_classifier() is None,
            r.spec_bulkhead() is None,
            r.spec_state() == CircuitState::Closed,
            r.spec_storage().now() == 0,
            r.spec_storage().keeps_events(),
            forall|n: Seq<char>| r.spec_storage().log_of(n) == Seq::<Event>::empty(),
    {
        Self::from_parts(name, config, crate::storage::MemoryStorage::new(), None, None)
    }

    /// Start a builder for a circuit with this name.
    pub fn builder(name: String) -> (r: crate::builder::CircuitBuilder<
        crate::storage::MemoryStorage,
        crate::classifier::DefaultClassifier,
    >)
        ensures
            r.wf(),
            r.spec_name() == name@,
            r.spec_config() == Config::default_spec(),
            r.spec_classifier() is None,
            r.spec_bulkhead() is None,
            r.spec_storage().now() == 0,
            r.spec_storage().keeps_events(),
            forall|n: Seq<char>| r.spec_storage().log_of(n) == Seq::<Event>::empty(),
    {
        crate::builder::CircuitBuilder::new(name)
    }
}

} // verus!
