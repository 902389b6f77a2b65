//! Bulkhead: a non-blocking counting semaphore that caps how many
//! operations may be in flight at once.

use vstd::prelude::*;

verus! {

/// A counting semaphore for limiting concurrent operations.
///
/// A breaker configured with a bulkhead refuses calls outright once
/// `limit` permits are out, instead of queueing them. The count of
/// permits never exceeds the limit.
#[derive(Debug)]
pub struct BulkheadSemaphore {
    /// Maximum number of permits that may be out at once.
    limit: u64,
    /// Number of permits currently out.
    acquired: u64,
}

/// Witness that a permit was taken from a bulkhead. Hand it back with
/// [`BulkheadSemaphore::release`] when the guarded operation is done.
#[derive(Debug)]
pub struct BulkheadGuard {
    _permit: (),
}

/// Two bulkheads with the same limit and the same count of permits out
/// are the same bulkhead value.
pub proof fn lemma_bulkhead_ext(a: BulkheadSemaphore, b: BulkheadSemaphore)
    requires
        a.spec_limit() == b.spec_limit(),
        a.spec_acquired() == b.spec_acquired(),
    ensures
        a == b,
{
}

impl BulkheadSemaphore {
    /// The configured permit limit.
    pub closed spec fn spec_limit(&self) -> u64 {
        self.limit
    }

    /// The number of permits currently out.
    pub closed spec fn spec_acquired(&self) -> u64 {
        self.acquired
    }

    /// The count of permits that are out never exceeds the limit, and the
    /// limit is positive.
    pub open spec fn wf(&self) -> bool {
        &&& self.spec_acquired() <= self.spec_limit()
        &&& self.spec_limit() > 0
    }

    /// Create a bulkhead with the given concurrency limit. A limit of
    /// zero would refuse every call, which is a configuration mistake;
    /// callers must pass a positive limit.
    pub fn new(limit: u64) -> (r: Self)
        requires
            limit > 0,
        ensures
            r.wf(),
            r.spec_limit() == limit,
            r.spec_acquired() == 0,
    {
        BulkheadSemaphore { limit, acquired: 0 }
    }

    /// Take a permit if one is free. Never blocks: returns `None` exactly
    /// when all permits are out.
    pub fn try_acquire(&mut self) -> (r: Option<BulkheadGuard>)
        requires
            old(self).wf(),
        ensures
            final(self).wf(),
            final(self).spec_limit() == old(self).spec_limit(),
            old(self).spec_acquired() < old(self).spec_limit() ==> {
                &&& r is Some
                &&& final(self).spec_acquired() == old(self).spec_acquired() + 1
            },
            old(self).spec_acquired() >= old(self).spec_limit() ==> {
                &&& r is None
                &&& final(self).spec_acquired() == old(self).spec_acquired()
            },
    {
        if self.acquired < self.limit {
            self.acquired = self.acquired + 1;
            Some(BulkheadGuard { _permit: () })
        } else {
            None
        }
    }

    /// Return a permit. The guard witnesses that one is out.
    pub fn release(&mut self, guard: BulkheadGuard)
        requires
            old(self).wf(),
            old(self).spec_acquired() >= 1,
        ensures
            final(self).wf(),
            final(self).spec_limit() == old(self).spec_limit(),
            final(self).spec_acquired() == old(self).spec_acquired() - 1,
    {
        let BulkheadGuard { _permit } = guard;
        self.acquired = self.acquired - 1;
    }

    /// The number of permits currently out.
    pub fn acquired(&self) -> (r: u64)
        ensures
            r == self.spec_acquired(),
    {
        self.acquired
    }

    /// The maximum number of permits.
    pub fn limit(&self) -> (r: u64)
        ensures
            r == self.spec_limit(),
    {
        self.limit
    }

    /// The number of permits still free.
    pub fn available(&self) -> (r: u64)
        requires
            self.wf(),
        ensures
            r == self.spec_limit() - self.spec_acquired(),
    {
        self.limit - self.acquired
    }
}

} // verus!
