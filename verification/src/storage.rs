//! Event stores for circuit breakers.
//!
//! A store keeps, per circuit name, an ordered log of outcome events and
//! answers sliding-window counts over it. Every store owns a monotonic
//! clock anchored at its creation; timestamps never exceed the last time
//! the store reported, and never decrease along a log.

use vstd::prelude::*;

use crate::{Event, EventKind};

verus! {

/// An event at `ts` still counts for a window of length `window` ending
/// at `now`.
pub open spec fn in_window(ts: u64, now: u64, window: u64) -> bool {
    ts + window >= now
}

/// How many events of `kind` in `log` fall inside the window of length
/// `window` ending at `now`.
pub open spec fn count_in_window(log: Seq<Event>, kind: EventKind, now: u64, window: u64) -> nat
    decreases log.len(),
{
    if log.len() == 0 {
        0
    } else {
        count_in_window(log.drop_last(), kind, now, window) + (if log.last().kind == kind
            && in_window(log.last().timestamp, now, window) {
            1nat
        } else {
            0nat
        })
    }
}

/// How many of the oldest events a store sheds when a log outgrows its
/// cap: a tenth of the cap, but at least one.
pub open spec fn trim_count(cap: nat) -> nat {
    if cap / 10 > 1 {
        cap / 10
    } else {
        1
    }
}

/// A log after the overflow rule: if it outgrew `cap`, the oldest
/// `trim_count(cap)` events are dropped; the newest are always kept.
pub open spec fn trim_excess(log: Seq<Event>, cap: nat) -> Seq<Event> {
    if log.len() > cap {
        log.skip(trim_count(cap) as int)
    } else {
        log
    }
}

/// The newest `limit` events of a log, in chronological order.
pub open spec fn tail_of(log: Seq<Event>, limit: nat) -> Seq<Event> {
    if log.len() <= limit {
        log
    } else {
        log.skip(log.len() - limit)
    }
}

/// Timestamps never decrease along a log.
pub open spec fn timestamps_sorted(log: Seq<Event>) -> bool {
    forall|i: int, j: int| 0 <= i <= j < log.len() ==> log[i].timestamp <= log[j].timestamp
}

/// No timestamp in the log lies ahead of `now`.
pub open spec fn timestamps_at_most(log: Seq<Event>, now: u64) -> bool {
    forall|i: int| 0 <= i < log.len() ==> log[i].timestamp <= now
}

/// What recording one event does to a store: the clock may advance, the
/// named log gains the event stamped with the store's new time (then the
/// overflow rule applies), every other log is untouched. A store that
/// drops writes leaves the log as it was.
pub open spec fn record_post<S: StorageBackend>(
    pre: S,
    post: S,
    name: Seq<char>,
    kind: EventKind,
    duration: u64,
) -> bool {
    &&& post.inv()
    &&& post.now() >= pre.now()
    &&& post.cap() == pre.cap()
    &&& post.keeps_events() == pre.keeps_events()
    &&& forall|n: Seq<char>| n != name ==> post.log_of(n) == pre.log_of(n)
    &&& pre.keeps_events() ==> post.log_of(name) == trim_excess(
        pre.log_of(name).push(Event { kind, timestamp: post.now(), duration }),
        pre.cap(),
    )
    &&& !pre.keeps_events() ==> post.log_of(name) == pre.log_of(name)
}

/// What a read-only query does to a store: the clock may advance, the
/// logs do not change.
pub open spec fn query_post<S: StorageBackend>(pre: S, post: S) -> bool {
    &&& post.inv()
    &&& post.now() >= pre.now()
    &&& post.cap() == pre.cap()
    &&& post.keeps_events() == pre.keeps_events()
    &&& forall|n: Seq<char>| post.log_of(n) == pre.log_of(n)
}

/// A store of per-circuit event logs with a monotonic clock.
///
/// Implementations may share one store between several breakers; each
/// circuit is addressed by name. The clock reports nanoseconds since the
/// store was created, never decreases, and never reports zero, so a
/// timestamp taken from it is always positive.
pub trait StorageBackend: Sized {
    /// The events recorded for a circuit, oldest first.
    spec fn log_of(&self, name: Seq<char>) -> Seq<Event>;

    /// The last time the store reported; no timestamp lies ahead of it.
    spec fn now(&self) -> u64;

    /// The most events kept per circuit before the oldest are shed.
    spec fn cap(&self) -> nat;

    /// Whether the store keeps what is recorded. A null store does not.
    spec fn keeps_events(&self) -> bool;

    /// Internal well-formedness, established at creation and kept by
    /// every operation.
    spec fn inv(&self) -> bool;

    /// In a well-formed store every log is in timestamp order and never
    /// ahead of the store's clock.
    proof fn inv_log_properties(&self, name: Seq<char>)
        requires
            self.inv(),
        ensures
            timestamps_sorted(self.log_of(name)),
            timestamps_at_most(self.log_of(name), self.now()),
    ;

    /// Nanoseconds since the store was created: positive and never
    /// decreasing from one call to the next.
    fn monotonic_time(&mut self) -> (r: u64)
        requires
            old(self).inv(),
        ensures
            final(self).inv(),
            final(self).now() >= old(self).now(),
            final(self).cap() == old(self).cap(),
            final(self).keeps_events() == old(self).keeps_events(),
            forall|n: Seq<char>| final(self).log_of(n) == old(self).log_of(n),
            r == final(self).now(),
            r >= 1,
    ;

    /// Record a successful operation against a circuit, stamped with the
    /// store's current time.
    fn record_success(&mut self, circuit_name: &str, duration: u64)
        requires
            old(self).inv(),
        ensures
            final(self).inv(),
            final(self).now() >= old(self).now(),
            final(self).cap() == old(self).cap(),
            final(self).keeps_events() == old(self).keeps_events(),
            forall|n: Seq<char>|
                n != circuit_name@ ==> final(self).log_of(n) == old(self).log_of(n),
            old(self).keeps_events() ==> final(self).log_of(circuit_name@) == trim_excess(
                old(self).log_of(circuit_name@).push(
                    Event { kind: EventKind::Success, timestamp: final(self).now(), duration },
                ),
                old(self).cap(),
            ),
            !old(self).keeps_events() ==> final(self).log_of(circuit_name@) == old(self).log_of(
                circuit_name@,
            ),
    ;

    /// Record a failed operation against a circuit, stamped with the
    /// store's current time.
    fn record_failure(&mut self, circuit_name: &str, duration: u64)
        requires
            old(self).inv(),
        ensures
            final(self).inv(),
            final(self).now() >= old(self).now(),
            final(self).cap() == old(self).cap(),
            final(self).keeps_events() == old(self).keeps_events(),
            forall|n: Seq<char>|
                n != circuit_name@ ==> final(self).log_of(n) == old(self).log_of(n),
            old(self).keeps_events() ==> final(self).log_of(circuit_name@) == trim_excess(
                old(self).log_of(circuit_name@).push(
                    Event { kind: EventKind::Failure, timestamp: final(self).now(), duration },
                ),
                old(self).cap(),
            ),
            !old(self).keeps_events() ==> final(self).log_of(circuit_name@) == old(self).log_of(
                circuit_name@,
            ),
    ;

    /// How many successes of the circuit fall in the window ending now.
    fn success_count(&mut self, circuit_name: &str, window: u64) -> (r: usize)
        requires
            old(self).inv(),
        ensures
            final(self).inv(),
            final(self).now() >= old(self).now(),
            final(self).cap() == old(self).cap(),
            final(self).keeps_events() == old(self).keeps_events(),
            forall|n: Seq<char>| final(self).log_of(n) == old(self).log_of(n),
            r == count_in_window(
                final(self).log_of(circuit_name@),
                EventKind::Success,
                final(self).now(),
                window,
            ),
    ;

    /// How many failures of the circuit fall in the window ending now.
    fn failure_count(&mut self, circuit_name: &str, window: u64) -> (r: usize)
        requires
            old(self).inv(),
        ensures
            final(self).inv(),
            final(self).now() >= old(self).now(),
            final(self).cap() == old(self).cap(),
            final(self).keeps_events() == old(self).keeps_events(),
            forall|n: Seq<char>| final(self).log_of(n) == old(self).log_of(n),
            r == count_in_window(
                final(self).log_of(circuit_name@),
                EventKind::Failure,
                final(self).now(),
                window,
            ),
    ;

    /// Remove every event recorded for the circuit.
    fn clear(&mut self, circuit_name: &str)
        requires
            old(self).inv(),
        ensures
            final(self).inv(),
            final(self).now() == old(self).now(),
            final(self).cap() == old(self).cap(),
            final(self).keeps_events() == old(self).keeps_events(),
            final(self).log_of(circuit_name@) == Seq::<Event>::empty(),
            forall|n: Seq<char>|
                n != circuit_name@ ==> final(self).log_of(n) == old(self).log_of(n),
    ;

    /// Remove every event recorded for every circuit.
    fn clear_all(&mut self)
        requires
            old(self).inv(),
        ensures
            final(self).inv(),
            final(self).now() == old(self).now(),
            final(self).cap() == old(self).cap(),
            final(self).keeps_events() == old(self).keeps_events(),
            forall|n: Seq<char>| final(self).log_of(n) == Seq::<Event>::empty(),
    ;

    /// The newest `limit` events of the circuit, oldest first.
    fn event_log(&self, circuit_name: &str, limit: usize) -> (r: Vec<Event>)
        requires
            self.inv(),
        ensures
            r@ == tail_of(self.log_of(circuit_name@), limit as nat),
    ;
}

/// One circuit's recorded events under its name.
#[derive(Debug)]
struct CircuitLog {
    name: String,
    events: Vec<Event>,
}

/// No two registry entries carry the same circuit name.
spec fn names_unique(s: Seq<CircuitLog>) -> bool {
    forall|i: int, j: int| 0 <= i < j < s.len() ==> s[i].name@ != s[j].name@
}

/// Some registry entry carries this circuit name.
spec fn has_entry(s: Seq<CircuitLog>, name: Seq<char>) -> bool {
    exists|i: int| 0 <= i < s.len() && s[i].name@ == name
}

/// The index of the registry entry carrying this circuit name.
spec fn entry_index(s: Seq<CircuitLog>, name: Seq<char>) -> int {
    choose|i: int| 0 <= i < s.len() && s[i].name@ == name
}

/// The events recorded under this circuit name; empty when the name has
/// no entry.
spec fn entry_events(s: Seq<CircuitLog>, name: Seq<char>) -> Seq<Event> {
    if has_entry(s, name) {
        s[entry_index(s, name)].events@
    } else {
        Seq::empty()
    }
}

/// With unique names, an entry found at `i` is the entry the lookup
/// functions denote.
proof fn lemma_found_entry(s: Seq<CircuitLog>, name: Seq<char>, i: int)
    requires
        names_unique(s),
        0 <= i < s.len(),
        s[i].name@ == name,
    ensures
        has_entry(s, name),
        entry_index(s, name) == i,
        entry_events(s, name) == s[i].events@,
{
    assert(has_entry(s, name));
    let j = entry_index(s, name);
    assert(0 <= j < s.len() && s[j].name@ == name);
    if j < i {
        assert(s[j].name@ != s[i].name@);
    } else if i < j {
        assert(s[i].name@ != s[j].name@);
    }
}

/// Replacing the events of one entry, name kept, keeps the names unique.
proof fn lemma_update_unique(pre: Seq<CircuitLog>, post: Seq<CircuitLog>, i: int)
    requires
        names_unique(pre),
        pre.len() == post.len(),
        0 <= i < pre.len(),
        forall|j: int| 0 <= j < pre.len() && j != i ==> post[j] == pre[j],
        post[i].name@ == pre[i].name@,
    ensures
        names_unique(post),
{
    assert forall|a: int, b: int| 0 <= a < b < post.len() implies post[a].name@
        != post[b].name@ by {
        assert(post[a].name@ == pre[a].name@);
        assert(post[b].name@ == pre[b].name@);
    }
}

/// Appending an entry under a fresh name keeps the names unique.
proof fn lemma_push_unique(pre: Seq<CircuitLog>, nl: CircuitLog)
    requires
        names_unique(pre),
        !has_entry(pre, nl.name@),
    ensures
        names_unique(pre.push(nl)),
{
    let post = pre.push(nl);
    assert forall|a: int, b: int| 0 <= a < b < post.len() implies post[a].name@
        != post[b].name@ by {
        if b == pre.len() {
            assert(post[a] == pre[a]);
            if post[a].name@ == nl.name@ {
                assert(has_entry(pre, nl.name@));
            }
        } else {
            assert(post[a] == pre[a]);
            assert(post[b] == pre[b]);
        }
    }
}

/// Replacing the events of one entry, name kept, leaves every other
/// circuit's log as it was, and keeps the names unique.
proof fn lemma_log_of_update(pre: Seq<CircuitLog>, post: Seq<CircuitLog>, i: int, n: Seq<char>)
    requires
        names_unique(pre),
        pre.len() == post.len(),
        0 <= i < pre.len(),
        forall|j: int| 0 <= j < pre.len() && j != i ==> post[j] == pre[j],
        post[i].name@ == pre[i].name@,
        pre[i].name@ != n,
    ensures
        names_unique(post),
        entry_events(post, n) == entry_events(pre, n),
{
    assert forall|a: int, b: int| 0 <= a < b < post.len() implies post[a].name@
        != post[b].name@ by {
        assert(post[a].name@ == pre[a].name@);
        assert(post[b].name@ == pre[b].name@);
    }
    if has_entry(pre, n) {
        let j = entry_index(pre, n);
        assert(0 <= j < pre.len() && pre[j].name@ == n);
        assert(j != i);
        lemma_found_entry(pre, n, j);
        lemma_found_entry(post, n, j);
    } else {
        if has_entry(post, n) {
            let j = entry_index(post, n);
            assert(0 <= j < post.len() && post[j].name@ == n);
            assert(pre[j].name@ == n);
        }
    }
}

/// Appending an entry under a fresh name leaves every other circuit's
/// log as it was, and keeps the names unique.
proof fn lemma_log_of_push(pre: Seq<CircuitLog>, nl: CircuitLog, n: Seq<char>)
    requires
        names_unique(pre),
        !has_entry(pre, nl.name@),
        nl.name@ != n,
    ensures
        names_unique(pre.push(nl)),
        entry_events(pre.push(nl), n) == entry_events(pre, n),
{
    let post = pre.push(nl);
    assert forall|a: int, b: int| 0 <= a < b < post.len() implies post[a].name@
        != post[b].name@ by {
        if b == pre.len() {
            assert(post[a] == pre[a]);
            if post[a].name@ == nl.name@ {
                assert(has_entry(pre, nl.name@));
            }
        } else {
            assert(post[a] == pre[a]);
            assert(post[b] == pre[b]);
        }
    }
    if has_entry(pre, n) {
        let j = entry_index(pre, n);
        assert(post[j] == pre[j]);
        lemma_found_entry(pre, n, j);
        lemma_found_entry(post, n, j);
    } else {
        if has_entry(post, n) {
            let j = entry_index(post, n);
            assert(0 <= j < post.len() && post[j].name@ == n);
            if j < pre.len() {
                assert(pre[j].name@ == n);
            } else {
                assert(post[j] == nl);
            }
        }
    }
}

/// A store that keeps logs in memory, bounded per circuit, with its own
/// monotonic clock.
#[derive(Debug)]
pub struct MemoryStorage {
    /// One entry per circuit name that has recorded an event.
    entries: Vec<CircuitLog>,
    /// The most events kept per circuit before the oldest are shed.
    max_events: usize,
    /// The moment the store was created; all times are measured from it.
    anchor: std::time::Instant,
    /// The last time the store reported; never decreases.
    last: u64,
}

impl MemoryStorage {
    /// Create a store that keeps up to a thousand events per circuit.
    pub fn new() -> (r: Self)
        ensures
            r.inv(),
            r.now() == 0,
            r.cap() == 1000,
            r.keeps_events(),
            forall|n: Seq<char>| r.log_of(n) == Seq::<Event>::empty(),
    {
        Self::with_max_events(1000)
    }

    /// Create a store with a chosen per-circuit event cap.
    pub fn with_max_events(max_events: usize) -> (r: Self)
        ensures
            r.inv(),
            r.now() == 0,
            r.cap() == max_events,
            r.keeps_events(),
            forall|n: Seq<char>| r.log_of(n) == Seq::<Event>::empty(),
    {
        MemoryStorage { entries: Vec::new(), max_events, anchor: instant_now(), last: 0 }
    }

    /// Read the clock, clamped so that it never decreases and never
    /// reports zero.
    fn tick(&mut self) -> (r: u64)
        requires
            old(self).inv(),
        ensures
            final(self).inv(),
            final(self).entries@ == old(self).entries@,
            final(self).max_events == old(self).max_events,
            final(self).last >= old(self).last,
            r == final(self).last,
            r >= 1,
    {
        let elapsed = elapsed_nanos(&self.anchor);
        let mut t = if elapsed > self.last {
            elapsed
        } else {
            self.last
        };
        if t < 1 {
            t = 1;
        }
        self.last = t;
        proof {
            assert forall|i: int| 0 <= i < self.entries@.len() implies timestamps_sorted(
                #[trigger] self.entries@[i].events@,
            ) && timestamps_at_most(self.entries@[i].events@, self.last) by {
                assert(timestamps_at_most(self.entries@[i].events@, old(self).last));
                assert forall|k: int| 0 <= k < self.entries@[i].events@.len() implies self.entries@[i].events@[k].timestamp
                    <= self.last by {
                    assert(self.entries@[i].events@[k].timestamp <= old(self).last);
                }
            }
        }
        t
    }

    /// Find the registry entry for a circuit name, if it has one.
    fn find_entry(&self, key: &String) -> (r: Option<usize>)
        ensures
            match r {
                Some(i) => i < self.entries@.len() && self.entries@[i as int].name@ == key@,
                None => !has_entry(self.entries@, key@),
            },
    {
        let mut i: usize = 0;
        while i < self.entries.len()
            invariant
                i <= self.entries@.len(),
                forall|j: int| 0 <= j < i ==> self.entries@[j].name@ != key@,
            decreases self.entries@.len() - i,
        {
            if self.entries[i].name == *key {
                return Some(i);
            }
            i += 1;
        }
        None
    }
}

impl MemoryStorage {
    /// Record one event: stamp it with the clock, append it to the
    /// circuit's log (creating the entry on first use), and shed the
    /// oldest events if the log outgrew the cap.
    fn record_event(&mut self, circuit_name: &str, kind: EventKind, duration: u64)
        requires
            old(self).inv(),
        ensures
            final(self).inv(),
            final(self).now() >= old(self).now(),
            final(self).cap() == old(self).cap(),
            final(self).keeps_events(),
            forall|n: Seq<char>|
                n != circuit_name@ ==> final(self).log_of(n) == old(self).log_of(n),
            final(self).log_of(circuit_name@) == trim_excess(
                old(self).log_of(circuit_name@).push(
                    Event { kind, timestamp: final(self).now(), duration },
                ),
                old(self).cap(),
            ),
    {
        let t = self.tick();
        let ev = Event { kind, timestamp: t, duration };
        let key = circuit_name.to_owned();
        let ghost orig = self.entries@;
        let idx: usize = match self.find_entry(&key) {
            Some(i) => i,
            None => {
                let n = self.entries.len();
                let entry = CircuitLog { name: key, events: Vec::new() };
                proof {
                    assert forall|m: Seq<char>| m != circuit_name@ implies entry_events(
                        orig.push(entry),
                        m,
                    ) == entry_events(orig, m) by {
                        lemma_log_of_push(orig, entry, m);
                    }
                    lemma_push_unique(orig, entry);
                    lemma_found_entry(orig.push(entry), circuit_name@, n as int);
                }
                self.entries.push(entry);
                n
            },
        };
        let ghost base = self.entries@;
        proof {
            // In both branches the entry at idx carries the circuit's
            // name, its events are the circuit's old log, and no other
            // circuit's log has moved.
            if base.len() == orig.len() {
                lemma_found_entry(base, circuit_name@, idx as int);
            }
            assert(names_unique(base));
            assert(base[idx as int].name@ == circuit_name@);
            assert(base[idx as int].events@ == entry_events(orig, circuit_name@));
            assert(forall|m: Seq<char>|
                m != circuit_name@ ==> entry_events(base, m) == entry_events(orig, m));
        }
        let ghost pushed = base[idx as int].events@.push(ev);
        self.entries[idx].events.push(ev);
        let ghost mid = self.entries@;
        proof {
            assert(pushed.skip(0) =~= pushed);
        }
        if self.entries[idx].events.len() > self.max_events {
            let mut k = self.max_events / 10;
            if k < 1 {
                k = 1;
            }
            assert(k == trim_count(self.max_events as nat));
            assert(k as int <= pushed.len());
            let mut removed: usize = 0;
            while removed < k
                invariant
                    removed <= k,
                    self.last == t,
                    (idx as int) < self.entries@.len(),
                    self.entries@.len() == mid.len(),
                    forall|j: int|
                        0 <= j < mid.len() && j != idx as int ==> self.entries@[j] == mid[j],
                    self.entries@[idx as int].name@ == mid[idx as int].name@,
                    self.entries@[idx as int].events@ == pushed.skip(removed as int),
                    pushed.len() > self.max_events,
                    k == trim_count(self.max_events as nat),
                    k <= pushed.len(),
                    self.max_events == old(self).max_events,
                decreases k - removed,
            {
                self.entries[idx].events.remove(0);
                proof {
                    assert(pushed.skip(removed as int).subrange(
                        1,
                        pushed.skip(removed as int).len() as int,
                    ) =~= pushed.skip(removed + 1));
                }
                removed += 1;
            }
        }
        proof {
            let post = self.entries@;
            let cap = old(self).max_events as nat;
            assert(mid.len() == base.len());
            assert(forall|j: int| 0 <= j < base.len() && j != idx as int ==> mid[j] == base[j]);
            assert(mid[idx as int].name@ == base[idx as int].name@);
            assert(mid[idx as int].events@ == pushed);
            assert(post.len() == base.len());
            assert(forall|j: int| 0 <= j < base.len() && j != idx as int ==> post[j] == base[j]);
            assert(post[idx as int].name@ == base[idx as int].name@);
            // The circuit's final log is the pushed log after the
            // overflow rule.
            assert(post[idx as int].events@ =~= trim_excess(pushed, cap));
            // Every other circuit's log is untouched.
            assert forall|m: Seq<char>| m != circuit_name@ implies entry_events(post, m)
                == entry_events(base, m) by {
                lemma_log_of_update(base, post, idx as int, m);
            }
            lemma_update_unique(base, post, idx as int);
            lemma_found_entry(post, circuit_name@, idx as int);
            // The well-formedness of each log survives: the new event
            // carries the newest stamp, and shedding a prefix keeps the
            // order.
            assert forall|i: int| 0 <= i < post.len() implies timestamps_sorted(
                #[trigger] post[i].events@,
            ) && timestamps_at_most(post[i].events@, self.last) by {
                if i == idx as int {
                    assert(timestamps_sorted(base[i].events@));
                    assert(timestamps_at_most(base[i].events@, self.last));
                    assert forall|a: int, b: int|
                        0 <= a <= b < pushed.len() implies pushed[a].timestamp
                        <= pushed[b].timestamp by {
                        if b < pushed.len() - 1 {
                            assert(pushed[a] == base[i].events@[a]);
                            assert(pushed[b] == base[i].events@[b]);
                        } else if a < pushed.len() - 1 {
                            assert(pushed[a] == base[i].events@[a]);
                            assert(pushed[b] == ev);
                            assert(pushed[a].timestamp <= self.last);
                        }
                    }
                    assert(timestamps_sorted(pushed));
                    assert forall|a: int| 0 <= a < pushed.len() implies pushed[a].timestamp
                        <= self.last by {
                        if a < pushed.len() - 1 {
                            assert(pushed[a] == base[i].events@[a]);
                        }
                    }
                    assert(timestamps_at_most(pushed, self.last));
                    let fin = post[i].events@;
                    assert forall|a: int, b: int| 0 <= a <= b < fin.len() implies fin[a].timestamp
                        <= fin[b].timestamp by {
                        if fin.len() < pushed.len() {
                            let off = trim_count(cap) as int;
                            assert(fin[a] == pushed[a + off]);
                            assert(fin[b] == pushed[b + off]);
                        }
                    }
                    assert forall|a: int| 0 <= a < fin.len() implies fin[a].timestamp
                        <= self.last by {
                        if fin.len() < pushed.len() {
                            let off = trim_count(cap) as int;
                            assert(fin[a] == pushed[a + off]);
                        }
                    }
                } else {
                    assert(post[i] == base[i]);
                }
            }
        }
    }
}

impl StorageBackend for MemoryStorage {
    closed spec fn log_of(&self, name: Seq<char>) -> Seq<Event> {
        entry_events(self.entries@, name)
    }

    closed spec fn now(&self) -> u64 {
        self.last
    }

    closed spec fn cap(&self) -> nat {
        self.max_events as nat
    }

    closed spec fn keeps_events(&self) -> bool {
        true
    }

    closed spec fn inv(&self) -> bool {
        &&& names_unique(self.entries@)
        &&& forall|i: int|
            0 <= i < self.entries@.len() ==> timestamps_sorted(#[trigger] self.entries@[i].events@)
                && timestamps_at_most(self.entries@[i].events@, self.last)
    }

    proof fn inv_log_properties(&self, name: Seq<char>)
    {
        if has_entry(self.entries@, name) {
            let i = entry_index(self.entries@, name);
            assert(0 <= i < self.entries@.len() && self.entries@[i].name@ == name);
        }
    }

    fn monotonic_time(&mut self) -> (r: u64) {
        self.tick()
    }

    fn record_success(&mut self, circuit_name: &str, duration: u64) {
        self.record_event(circuit_name, EventKind::Success, duration);
    }

    fn record_failure(&mut self, circuit_name: &str, duration: u64) {
        self.record_event(circuit_name, EventKind::Failure, duration);
    }

    fn success_count(&mut self, circuit_name: &str, window: u64) -> (r: usize) {
        self.count_kind(circuit_name, EventKind::Success, window)
    }

    fn failure_count(&mut self, circuit_name: &str, window: u64) -> (r: usize) {
        self.count_kind(circuit_name, EventKind::Failure, window)
    }

    fn clear(&mut self, circuit_name: &str) {
        let key = circuit_name.to_owned();
        let ghost pre = self.entries@;
        match self.find_entry(&key) {
            Some(i) => {
                self.entries[i].events.clear();
                proof {
                    let post = self.entries@;
                    assert forall|m: Seq<char>| m != circuit_name@ implies entry_events(post, m)
                        == entry_events(pre, m) by {
                        lemma_log_of_update(pre, post, i as int, m);
                    }
                    lemma_update_unique(pre, post, i as int);
                    lemma_found_entry(post, circuit_name@, i as int);
                    assert forall|j: int| 0 <= j < post.len() implies timestamps_sorted(
                        #[trigger] post[j].events@,
                    ) && timestamps_at_most(post[j].events@, self.last) by {
                        if j != i as int {
                            assert(post[j] == pre[j]);
                        }
                    }
                }
            },
            None => {
            },
        }
    }

    fn clear_all(&mut self) {
        self.entries.clear();
    }

    fn event_log(&self, circuit_name: &str, limit: usize) -> (r: Vec<Event>) {
        let key = circuit_name.to_owned();
        match self.find_entry(&key) {
            Some(i) => {
                proof {
                    lemma_found_entry(self.entries@, circuit_name@, i as int);
                }
                let events = &self.entries[i].events;
                let len = events.len();
                let start = if len > limit {
                    len - limit
                } else {
                    0
                };
                let mut out: Vec<Event> = Vec::new();
                let mut j = start;
                while j < len
                    invariant
                        start <= j <= len,
                        len == events@.len(),
                        out@ == events@.subrange(start as int, j as int),
                    decreases len - j,
                {
                    out.push(events[j]);
                    proof {
                        assert(out@ =~= events@.subrange(start as int, j + 1));
                    }
                    j += 1;
                }
                proof {
                    assert(out@ =~= tail_of(events@, limit as nat));
                }
                out
            },
            None => Vec::new(),
        }
    }
}

impl MemoryStorage {
    /// Count the circuit's events of one kind inside the window ending
    /// at the present moment.
    fn count_kind(&mut self, circuit_name: &str, kind: EventKind, window: u64) -> (r: usize)
        requires
            old(self).inv(),
        ensures
            final(self).inv(),
            final(self).now() >= old(self).now(),
            final(self).cap() == old(self).cap(),
            final(self).keeps_events() == old(self).keeps_events(),
            forall|n: Seq<char>| final(self).log_of(n) == old(self).log_of(n),
            r == count_in_window(
                final(self).log_of(circuit_name@),
                kind,
                final(self).now(),
                window,
            ),
    {
        let now = self.tick();
        let key = circuit_name.to_owned();
        match self.find_entry(&key) {
            Some(i) => {
                proof {
                    lemma_found_entry(self.entries@, circuit_name@, i as int);
                }
                let events = &self.entries[i].events;
                let mut acc: usize = 0;
                let mut j: usize = 0;
                while j < events.len()
                    invariant
                        j <= events@.len(),
                        acc <= j,
                        acc == count_in_window(events@.take(j as int), kind, now, window),
                        timestamps_at_most(events@, now),
                    decreases events@.len() - j,
                {
                    let e = events[j];
                    proof {
                        assert(events@.take(j + 1).drop_last() =~= events@.take(j as int));
                        assert(events@.take(j + 1).last() == events@[j as int]);
                    }
                    if e.kind == kind && now - e.timestamp <= window {
                        acc += 1;
                    }
                    j += 1;
                }
                proof {
                    assert(events@.take(events@.len() as int) =~= events@);
                }
                acc
            },
            None => 0,
        }
    }
}

impl Default for MemoryStorage {
    /// A fresh store with the usual cap of a thousand events.
    fn default() -> (r: Self)
        ensures
            r.inv(),
            r.now() == 0,
            r.cap() == 1000,
            r.keeps_events(),
            forall|n: Seq<char>| r.log_of(n) == Seq::<Event>::empty(),
    {
        MemoryStorage::new()
    }
}

/// A store that drops every write and reports empty logs. It still keeps
/// a real monotonic clock, so a breaker built on it runs its state
/// machine without any event accounting.
#[derive(Debug)]
pub struct NullStorage {
    anchor: std::time::Instant,
    last: u64,
}

impl NullStorage {
    /// Create a null store anchored at the present moment.
    pub fn new() -> (r: Self)
        ensures
            r.inv(),
            r.now() == 0,
    {
        NullStorage { anchor: instant_now(), last: 0 }
    }
}

impl Default for NullStorage {
    /// A fresh null store.
    fn default() -> (r: Self)
        ensures
            r.inv(),
            r.now() == 0,
    {
        NullStorage::new()
    }
}

impl StorageBackend for NullStorage {
    closed spec fn log_of(&self, name: Seq<char>) -> Seq<Event> {
        Seq::empty()
    }

    closed spec fn now(&self) -> u64 {
        self.last
    }

    closed spec fn cap(&self) -> nat {
        0
    }

    closed spec fn keeps_events(&self) -> bool {
        false
    }

    closed spec fn inv(&self) -> bool {
        true
    }

    proof fn inv_log_properties(&self, name: Seq<char>)
    {
    }

    fn monotonic_time(&mut self) -> (r: u64) {
        let elapsed = elapsed_nanos(&self.anchor);
        let mut t = if elapsed > self.last {
            elapsed
        } else {
            self.last
        };
        if t < 1 {
            t = 1;
        }
        self.last = t;
        t
    }

    fn record_success(&mut self, circuit_name: &str, duration: u64) {
    }

    fn record_failure(&mut self, circuit_name: &str, duration: u64) {
    }

    fn success_count(&mut self, circuit_name: &str, window: u64) -> (r: usize) {
        0
    }

    fn failure_count(&mut self, circuit_name: &str, window: u64) -> (r: usize) {
        0
    }

    fn clear(&mut self, circuit_name: &str) {
    }

    fn clear_all(&mut self) {
    }

    fn event_log(&self, circuit_name: &str, limit: usize) -> (r: Vec<Event>) {
        Vec::new()
    }
}

#[verifier::external_type_specification]
#[verifier::external_body]
pub struct ExInstant(std::time::Instant);

/// Relies on std::time::Instant::now: an opaque reading of a monotonic
/// clock. Nothing is assumed of the value.
#[verifier::external_body]
fn instant_now() -> std::time::Instant {
    std::time::Instant::now()
}

/// Relies on std::time::Instant::elapsed for the time since the anchor
/// (Duration::as_nanos reads it out as a nanosecond count). Nothing is
/// assumed of the value; callers enforce monotonicity themselves.
#[verifier::external_body]
fn elapsed_nanos(anchor: &std::time::Instant) -> u64 {
    anchor.elapsed().as_nanos() as u64
}

} // verus!
