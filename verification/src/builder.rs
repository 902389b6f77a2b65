//! Fluent assembly of a circuit breaker: configuration values, an
//! optional classifier, bulkhead and custom store, validated as they
//! are set.

use vstd::prelude::*;

use crate::bulkhead::BulkheadSemaphore;
use crate::circuit::{CircuitBreaker, CircuitState, Config, Transitions, PPM_SCALE};
use crate::classifier::{DefaultClassifier, FailureClassifier};
use crate::storage::{MemoryStorage, StorageBackend};

verus! {

/// Accumulates a breaker's parts; `build` assembles them. A fresh
/// builder carries the default configuration, a fresh in-memory store,
/// no classifier and no bulkhead.
pub struct CircuitBuilder<S: StorageBackend, C: FailureClassifier> {
    name: String,
    config: Config,
    storage: S,
    classifier: Option<C>,
    bulkhead: Option<BulkheadSemaphore>,
}

impl<S: StorageBackend, C: FailureClassifier> CircuitBuilder<S, C> {
    /// The circuit name the breaker will carry.
    pub closed spec fn spec_name(&self) -> Seq<char> {
        self.name@
    }

    /// The configuration assembled so far.
    pub closed spec fn spec_config(&self) -> Config {
        self.config
    }

    /// The store the breaker will own.
    pub closed spec fn spec_storage(&self) -> S {
        self.storage
    }

    /// The classifier, if one was given.
    pub closed spec fn spec_classifier(&self) -> Option<C> {
        self.classifier
    }

    /// The bulkhead, if one was given.
    pub closed spec fn spec_bulkhead(&self) -> Option<BulkheadSemaphore> {
        self.bulkhead
    }

    /// Every builder keeps its parts valid while they accumulate.
    pub open spec fn wf(&self) -> bool {
        &&& self.spec_config().wf()
        &&& self.spec_storage().inv()
        &&& match self.spec_bulkhead() {
            Option::Some(b) => b.wf(),
            Option::None => true,
        }
    }

    /// Only the named configuration field was touched.
    pub open spec fn same_but_config(pre: Self, post: Self) -> bool {
        &&& post.spec_name() == pre.spec_name()
        &&& post.spec_storage() == pre.spec_storage()
        &&& post.spec_classifier() == pre.spec_classifier()
        &&& post.spec_bulkhead() == pre.spec_bulkhead()
    }

    /// Open the circuit outright at this many failures in the window.
    pub fn failure_threshold(self, threshold: u64) -> (r: Self)
        requires
            self.wf(),
            threshold >= 1,
        ensures
            r.wf(),
            Self::same_but_config(self, r),
            r.spec_config() == (Config {
                failure_threshold: Option::Some(threshold),
                ..self.spec_config()
            }),
    {
        let mut b = self;
        b.config.failure_threshold = Some(threshold);
        b
    }

    /// Disable the absolute failure count; only the rate rule remains.
    pub fn disable_failure_threshold(self) -> (r: Self)
        requires
            self.wf(),
        ensures
            r.wf(),
            Self::same_but_config(self, r),
            r.spec_config() == (Config {
                failure_threshold: Option::None,
                ..self.spec_config()
            }),
    {
        let mut b = self;
        b.config.failure_threshold = None;
        b
    }

    /// Open the circuit at this failure ratio, in parts per million of
    /// all calls in the window; values over one million are clamped.
    pub fn failure_rate_ppm(self, rate: u32) -> (r: Self)
        requires
            self.wf(),
        ensures
            r.wf(),
            Self::same_but_config(self, r),
            r.spec_config() == (Config {
                failure_rate_threshold_ppm: Option::Some(
                    if rate <= PPM_SCALE {
                        rate
                    } else {
                        PPM_SCALE
                    },
                ),
                ..self.spec_config()
            }),
    {
        let clamped = if rate <= PPM_SCALE {
            rate
        } else {
            PPM_SCALE
        };
        let mut b = self;
        b.config.failure_rate_threshold_ppm = Some(clamped);
        b
    }

    /// Keep the rate rule quiet until the window holds this many calls.
    pub fn minimum_calls(self, calls: u64) -> (r: Self)
        requires
            self.wf(),
        ensures
            r.wf(),
            Self::same_but_config(self, r),
            r.spec_config() == (Config { minimum_calls: calls, ..self.spec_config() }),
    {
        let mut b = self;
        b.config.minimum_calls = calls;
        b
    }

    /// The sliding window over which failures are counted, in
    /// nanoseconds.
    pub fn failure_window_nanos(self, nanos: u64) -> (r: Self)
        requires
            self.wf(),
            nanos >= 1,
        ensures
            r.wf(),
            Self::same_but_config(self, r),
            r.spec_config() == (Config { failure_window: nanos, ..self.spec_config() }),
    {
        let mut b = self;
        b.config.failure_window = nanos;
        b
    }

    /// How long an open circuit waits before probing, in nanoseconds.
    pub fn half_open_timeout_nanos(self, nanos: u64) -> (r: Self)
        requires
            self.wf(),
            nanos >= 1,
        ensures
            r.wf(),
            Self::same_but_config(self, r),
            r.spec_config() == (Config { half_open_timeout: nanos, ..self.spec_config() }),
    {
        let mut b = self;
        b.config.half_open_timeout = nanos;
        b
    }

    /// Consecutive successes that close a half-open circuit.
    pub fn success_threshold(self, threshold: u64) -> (r: Self)
        requires
            self.wf(),
            threshold >= 1,
        ensures
            r.wf(),
            Self::same_but_config(self, r),
            r.spec_config() == (Config { success_threshold: threshold, ..self.spec_config() }),
    {
        let mut b = self;
        b.config.success_threshold = threshold;
        b
    }

    /// How much of the probe timeout jitter may shave off, in parts
    /// per million of the whole.
    pub fn jitter_factor_ppm(self, factor: u32) -> (r: Self)
        requires
            self.wf(),
            factor <= PPM_SCALE,
        ensures
            r.wf(),
            Self::same_but_config(self, r),
            r.spec_config() == (Config { jitter_factor_ppm: factor, ..self.spec_config() }),
    {
        let mut b = self;
        b.config.jitter_factor_ppm = factor;
        b
    }

    /// Back the breaker with this store instead of a fresh in-memory
    /// one.
    pub fn storage<S2: StorageBackend>(self, storage: S2) -> (r: CircuitBuilder<S2, C>)
        requires
            self.wf(),
            storage.inv(),
        ensures
            r.wf(),
            r.spec_name() == self.spec_name(),
            r.spec_config() == self.spec_config(),
            r.spec_storage() == storage,
            r.spec_classifier() == self.spec_classifier(),
            r.spec_bulkhead() == self.spec_bulkhead(),
    {
        CircuitBuilder {
            name: self.name,
            config: self.config,
            storage,
            classifier: self.classifier,
            bulkhead: self.bulkhead,
        }
    }

    /// Count only the failures this classifier accepts.
    pub fn failure_classifier<C2: FailureClassifier>(self, classifier: C2) -> (r: CircuitBuilder<
        S,
        C2,
    >)
        requires
            self.wf(),
        ensures
            r.wf(),
            r.spec_name() == self.spec_name(),
            r.spec_config() == self.spec_config(),
            r.spec_storage() == self.spec_storage(),
            r.spec_classifier() == Option::Some(classifier),
            r.spec_bulkhead() == self.spec_bulkhead(),
    {
        CircuitBuilder {
            name: self.name,
            config: self.config,
            storage: self.storage,
            classifier: Some(classifier),
            bulkhead: self.bulkhead,
        }
    }

    /// Cap concurrent calls with a bulkhead of this many permits. A
    /// limit of zero would refuse every call; callers must pass a
    /// positive limit.
    pub fn max_concurrency(self, limit: u64) -> (r: Self)
        requires
            self.wf(),
            limit >= 1,
        ensures
            r.wf(),
            r.spec_name() == self.spec_name(),
            r.spec_config() == self.spec_config(),
            r.spec_storage() == self.spec_storage(),
            r.spec_classifier() == self.spec_classifier(),
            (match r.spec_bulkhead() {
                Option::Some(b) => b.spec_limit() == limit && b.spec_acquired() == 0,
                Option::None => false,
            }),
    {
        let mut b = self;
        b.bulkhead = Some(BulkheadSemaphore::new(limit));
        b
    }

    /// Cap concurrent calls with a bulkhead built elsewhere, possibly
    /// with permits already out.
    pub fn bulkhead(self, bulkhead: BulkheadSemaphore) -> (r: Self)
        requires
            self.wf(),
            bulkhead.wf(),
        ensures
            r.wf(),
            r.spec_name() == self.spec_name(),
            r.spec_config() == self.spec_config(),
            r.spec_storage() == self.spec_storage(),
            r.spec_classifier() == self.spec_classifier(),
            r.spec_bulkhead() == Option::Some(bulkhead),
    {
        let mut b = self;
        b.bulkhead = Some(bulkhead);
        b
    }

    /// Assemble the breaker, starting closed.
    pub fn build(self) -> (r: CircuitBreaker<S, C>)
        requires
            self.wf(),
        ensures
            r.wf(),
            r.spec_name() == self.spec_name(),
            r.spec_config() == self.spec_config(),
            r.spec_storage() == self.spec_storage(),
            r.spec_classifier() == self.spec_classifier(),
            r.spec_bulkhead() == self.spec_bulkhead(),
            r.spec_state() == CircuitState::Closed,
            r.spec_transitions() == (Transitions {
                opened: false,
                closed: false,
                half_opened: false,
            }),
    {
        CircuitBreaker::from_parts(
            self.name,
            self.config,
            self.storage,
            self.classifier,
            self.bulkhead,
        )
    }
}

impl CircuitBuilder<MemoryStorage, DefaultClassifier> {
    /// Start a builder for a circuit with this name: default
    /// configuration, a fresh in-memory store, no classifier, no
    /// bulkhead.
    pub fn new(name: String) -> (r: Self)
        ensures
            r.wf(),
            r.spec_name() == name@,
            r.spec_config() == Config::default_spec(),
            r.spec_classifier() is None,
            r.spec_bulkhead() is None,
            r.spec_storage().now() == 0,
            r.spec_storage().keeps_events(),
            forall|n: Seq<char>|
                r.spec_storage().log_of(n) == Seq::<crate::Event>::empty(),
    {
        CircuitBuilder {
            name,
            config: Config::default(),
            storage: MemoryStorage::new(),
            classifier: None,
            bulkhead: None,
        }
    }
}

} // verus!
