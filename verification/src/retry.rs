use vstd::prelude::*;
use crate::batch::{Batch, BatchModel};
use crate::codec::{decode_entry, encode_entry, spec_decode_entry, spec_encode_entry};
use crate::offset_store::max_u64;

verus! {

/// What restoring one persisted record did.
#[derive(Clone, Copy, PartialEq, Eq, Structural, Debug)]
pub enum RestoreOutcome {
    /// The record decoded and its entry is queued again.
    Restored,
    /// The record was corrupt; it is skipped and nothing changes.
    Corrupt,
    /// The record decoded but the queue is already at capacity; the entry
    /// is dropped, as the overflow policy rejects new submissions.
    AtCapacity,
}

/// A batch held for re-delivery after a transient transport failure,
/// together with its enqueue time and how many attempts it has seen.
pub struct RetryEntry {
    pub batch: Batch,
    pub enqueued_at: u64,
    pub attempt: u32,
}

/// Mathematical model of a `RetryEntry`.
pub ghost struct RetryEntryModel {
    pub batch: BatchModel,
    pub enqueued_at: u64,
    pub attempt: u32,
}

impl View for RetryEntry {
    type V = RetryEntryModel;

    open spec fn view(&self) -> RetryEntryModel {
        RetryEntryModel { batch: self.batch@, enqueued_at: self.enqueued_at, attempt: self.attempt }
    }
}

pub open spec fn min_u64(a: u64, b: u64) -> u64 {
    if a <= b {
        a
    } else {
        b
    }
}

/// The attempt counter after one more failure; saturates at its maximum.
pub open spec fn next_attempt(a: u32) -> u32 {
    if a == u32::MAX {
        a
    } else {
        (a + 1) as u32
    }
}

/// Backoff before an entry's next attempt: starts at `base`, doubles with
/// each further attempt, and never exceeds `cap`. The growth rate and the
/// cap are tunables of the engine.
pub open spec fn spec_backoff(base: u64, cap: u64, attempt: nat) -> u64
    decreases attempt,
{
    if attempt == 0 {
        min_u64(base, cap)
    } else {
        let p = spec_backoff(base, cap, (attempt - 1) as nat);
        if p > cap / 2 {
            cap
        } else {
            (2 * p) as u64
        }
    }
}

/// The earliest instant at which an entry may be polled again.
pub open spec fn spec_ready_at(e: RetryEntryModel, base: u64, cap: u64) -> u64 {
    let b = spec_backoff(base, cap, e.attempt as nat);
    if e.enqueued_at > u64::MAX - b {
        u64::MAX
    } else {
        (e.enqueued_at + b) as u64
    }
}

/// Backoff for the given attempt count, as `spec_backoff` states it.
pub fn backoff_ms(base: u64, cap: u64, attempt: u32) -> (r: u64)
    ensures
        r == spec_backoff(base, cap, attempt as nat),
{
    let mut d: u64 = if base <= cap {
        base
    } else {
        cap
    };
    let mut k: u32 = 0;
    while k < attempt
        invariant
            k <= attempt,
            d == spec_backoff(base, cap, k as nat),
        decreases attempt - k,
    {
        d = if d > cap / 2 {
            cap
        } else {
            d * 2
        };
        k = k + 1;
    }
    d
}

/// How many queued entries carry batch `b`.
pub open spec fn occurrences(q: Seq<RetryEntryModel>, b: BatchModel) -> nat
    decreases q.len(),
{
    if q.len() == 0 {
        0
    } else {
        (if q[0].batch == b {
            1nat
        } else {
            0nat
        }) + occurrences(q.drop_first(), b)
    }
}

/// Law: requeueing a batch after a transient transport failure adds exactly
/// one entry carrying that batch — payload and offsets unchanged, since the
/// entry holds the batch itself — and leaves the count of every other batch
/// as it was. So a batch not already queued appears in the queue exactly
/// once afterward.
pub proof fn lemma_requeue_appends_exactly_once(q: Seq<RetryEntryModel>, e: RetryEntryModel)
    ensures
        occurrences(q.push(e), e.batch) == occurrences(q, e.batch) + 1,
        forall|b: BatchModel| b != e.batch ==> occurrences(q.push(e), b) == occurrences(q, b),
    decreases q.len(),
{
    if q.len() == 0 {
        assert(q.push(e).drop_first() =~= q);
        assert forall|b: BatchModel| b != e.batch implies occurrences(q.push(e), b) == occurrences(
            q,
            b,
        ) by {
            assert(q.push(e)[0] == e);
            assert(occurrences(q, b) == 0);
        }
    } else {
        assert(q.push(e).drop_first() =~= q.drop_first().push(e));
        lemma_requeue_appends_exactly_once(q.drop_first(), e);
        assert forall|b: BatchModel| b != e.batch implies occurrences(q.push(e), b) == occurrences(
            q,
            b,
        ) by {
            assert(q.push(e)[0] == q[0]);
            assert(occurrences(q.drop_first().push(e), b) == occurrences(q.drop_first(), b));
        }
    }
}

/// A bounded, time-ordered holding area for batches whose previous delivery
/// attempt failed at the transport level.
///
/// Entries are kept oldest first and polled in strict enqueue order. The
/// queue never exceeds its configured capacity; when it is full, the newest
/// submission is rejected (the overflow policy of this engine — nothing
/// already queued is ever evicted). Enqueue timestamps are clamped to be
/// monotone, so queue position order and enqueue-time order agree even if
/// the caller's clock steps backwards.
pub struct RetryEngine {
    queue: Vec<RetryEntry>,
    capacity: usize,
    base_delay_ms: u64,
    cap_delay_ms: u64,
    last_enqueue_ms: u64,
}

impl RetryEngine {
    /// The queued entries, oldest first.
    pub closed spec fn entries(self) -> Seq<RetryEntryModel> {
        self.queue@.map_values(|e: RetryEntry| e@)
    }

    pub closed spec fn capacity(self) -> usize {
        self.capacity
    }

    pub closed spec fn base_delay(self) -> u64 {
        self.base_delay_ms
    }

    pub closed spec fn cap_delay(self) -> u64 {
        self.cap_delay_ms
    }

    pub closed spec fn last_enqueue(self) -> u64 {
        self.last_enqueue_ms
    }

    /// Bounded by capacity, ordered by enqueue time, nothing enqueued after
    /// the recorded last enqueue instant.
    pub open spec fn wf(self) -> bool {
        &&& self.entries().len() <= self.capacity()
        &&& forall|i: int, j: int|
            0 <= i < j < self.entries().len() ==> #[trigger] self.entries()[i].enqueued_at
                <= #[trigger] self.entries()[j].enqueued_at
        &&& forall|i: int|
            0 <= i < self.entries().len() ==> #[trigger] self.entries()[i].enqueued_at
                <= self.last_enqueue()
    }

    /// Whether the engine's tunables stayed as they were.
    pub open spec fn same_config(self, other: RetryEngine) -> bool {
        &&& self.capacity() == other.capacity()
        &&& self.base_delay() == other.base_delay()
        &&& self.cap_delay() == other.cap_delay()
    }

    pub fn new(capacity: usize, base_delay_ms: u64, cap_delay_ms: u64) -> (e: RetryEngine)
        ensures
            e.wf(),
            e.entries().len() == 0,
            e.capacity() == capacity,
            e.base_delay() == base_delay_ms,
            e.cap_delay() == cap_delay_ms,
            e.last_enqueue() == 0,
    {
        RetryEngine {
            queue: Vec::new(),
            capacity,
            base_delay_ms,
            cap_delay_ms,
            last_enqueue_ms: 0,
        }
    }

    /// Number of entries currently held.
    pub fn len(&self) -> (n: usize)
        ensures
            n == self.entries().len(),
    {
        self.queue.len()
    }

    /// Enqueues a batch for a future attempt, with the attempt counter
    /// incremented from the prior attempt. When the queue is at capacity the
    /// submission is rejected and nothing changes: the same inputs always
    /// give the same outcome.
    pub fn retry(&mut self, batch: Batch, prior_attempt: u32, now_ms: u64) -> (accepted: bool)
        requires
            old(self).wf(),
        ensures
            final(self).wf(),
            final(self).same_config(*old(self)),
            accepted <==> old(self).entries().len() < old(self).capacity(),
            accepted ==> {
                &&& final(self).entries() == old(self).entries().push(
                    RetryEntryModel {
                        batch: batch@,
                        enqueued_at: max_u64(now_ms, old(self).last_enqueue()),
                        attempt: next_attempt(prior_attempt),
                    },
                )
                &&& final(self).last_enqueue() == max_u64(now_ms, old(self).last_enqueue())
            },
            !accepted ==> {
                &&& final(self).entries() == old(self).entries()
                &&& final(self).last_enqueue() == old(self).last_enqueue()
            },
    {
        if self.queue.len() < self.capacity {
            let stamp = if now_ms >= self.last_enqueue_ms {
                now_ms
            } else {
                self.last_enqueue_ms
            };
            let attempt = if prior_attempt == u32::MAX {
                prior_attempt
            } else {
                prior_attempt + 1
            };
            self.queue.push(RetryEntry { batch, enqueued_at: stamp, attempt });
            self.last_enqueue_ms = stamp;
            proof {
                assert(self.entries() =~= old(self).entries().push(
                    RetryEntryModel {
                        batch: batch@,
                        enqueued_at: max_u64(now_ms, old(self).last_enqueue()),
                        attempt: next_attempt(prior_attempt),
                    },
                ));
            }
            true
        } else {
            false
        }
    }

    /// Takes the oldest entry if its backoff has elapsed.
    ///
    /// Entries leave in strict enqueue order: the entry returned was
    /// enqueued no later than anything still queued. Polling an in-memory
    /// queue never fails.
    pub fn poll(&mut self, now_ms: u64) -> (r: Option<RetryEntry>)
        requires
            old(self).wf(),
        ensures
            final(self).wf(),
            final(self).same_config(*old(self)),
            final(self).last_enqueue() == old(self).last_enqueue(),
            match r {
                Some(e) => {
                    &&& old(self).entries().len() > 0
                    &&& now_ms >= spec_ready_at(
                        old(self).entries()[0],
                        old(self).base_delay(),
                        old(self).cap_delay(),
                    )
                    &&& e@ == old(self).entries()[0]
                    &&& final(self).entries() == old(self).entries().drop_first()
                    &&& forall|i: int|
                        0 <= i < old(self).entries().len() ==> e@.enqueued_at
                            <= #[trigger] old(self).entries()[i].enqueued_at
                },
                None => {
                    &&& (old(self).entries().len() == 0 || now_ms < spec_ready_at(
                        old(self).entries()[0],
                        old(self).base_delay(),
                        old(self).cap_delay(),
                    ))
                    &&& final(self).entries() == old(self).entries()
                },
            },
    {
        if self.queue.len() == 0 {
            return None;
        }
        let b = backoff_ms(self.base_delay_ms, self.cap_delay_ms, self.queue[0].attempt);
        let enq = self.queue[0].enqueued_at;
        let ready = if enq > u64::MAX - b {
            u64::MAX
        } else {
            enq + b
        };
        if now_ms >= ready {
            let e = self.queue.remove(0);
            proof {
                assert(self.entries() =~= old(self).entries().drop_first());
                assert forall|i: int| 0 <= i < old(self).entries().len() implies e@.enqueued_at
                    <= #[trigger] old(self).entries()[i].enqueued_at by {
                    if i > 0 {
                        assert(old(self).entries()[0].enqueued_at <= old(
                            self,
                        ).entries()[i].enqueued_at);
                    }
                }
            }
            Some(e)
        } else {
            None
        }
    }

    /// Rebuilds one entry from a persisted record image; called once per
    /// record at startup, before the first poll. A record that does not
    /// decode is skipped and reported, and rehydration goes on with the
    /// next record — a single corrupt record never stalls the queue.
    /// Restored enqueue times are clamped to be monotone, as live enqueue
    /// times are.
    pub fn restore(&mut self, record: &Vec<u8>) -> (r: RestoreOutcome)
        requires
            old(self).wf(),
        ensures
            final(self).wf(),
            final(self).same_config(*old(self)),
            match spec_decode_entry(record@) {
                Some(e) => {
                    if old(self).entries().len() < old(self).capacity() {
                        &&& r == RestoreOutcome::Restored
                        &&& final(self).entries() == old(self).entries().push(
                            RetryEntryModel {
                                batch: e.batch,
                                enqueued_at: max_u64(e.enqueued_at, old(self).last_enqueue()),
                                attempt: e.attempt,
                            },
                        )
                        &&& final(self).last_enqueue() == max_u64(
                            e.enqueued_at,
                            old(self).last_enqueue(),
                        )
                    } else {
                        &&& r == RestoreOutcome::AtCapacity
                        &&& final(self).entries() == old(self).entries()
                        &&& final(self).last_enqueue() == old(self).last_enqueue()
                    }
                },
                None => {
                    &&& r == RestoreOutcome::Corrupt
                    &&& final(self).entries() == old(self).entries()
                    &&& final(self).last_enqueue() == old(self).last_enqueue()
                },
            },
    {
        match decode_entry(record) {
            Some(e) => {
                if self.queue.len() < self.capacity {
                    let stamp = if e.enqueued_at >= self.last_enqueue_ms {
                        e.enqueued_at
                    } else {
                        self.last_enqueue_ms
                    };
                    let ghost decoded = e@;
                    self.queue.push(
                        RetryEntry { batch: e.batch, enqueued_at: stamp, attempt: e.attempt },
                    );
                    self.last_enqueue_ms = stamp;
                    proof {
                        assert(self.entries() =~= old(self).entries().push(
                            RetryEntryModel {
                                batch: decoded.batch,
                                enqueued_at: max_u64(
                                    decoded.enqueued_at,
                                    old(self).last_enqueue(),
                                ),
                                attempt: decoded.attempt,
                            },
                        ));
                    }
                    RestoreOutcome::Restored
                } else {
                    RestoreOutcome::AtCapacity
                }
            },
            None => RestoreOutcome::Corrupt,
        }
    }

    /// Renders every queued entry in the persistence format, oldest first.
    /// A caller that writes these records to the retry directory after each
    /// change can hand them back to `restore` at the next startup.
    pub fn snapshot_records(&self) -> (r: Vec<Vec<u8>>)
        ensures
            r@.len() == self.entries().len(),
            forall|i: int|
                0 <= i < r@.len() ==> (#[trigger] r@[i])@ == spec_encode_entry(self.entries()[i]),
    {
        let mut r: Vec<Vec<u8>> = Vec::new();
        let mut i: usize = 0;
        while i < self.queue.len()
            invariant
                i <= self.queue@.len(),
                self.entries().len() == self.queue@.len(),
                self.entries() == self.queue@.map_values(|e: RetryEntry| e@),
                r@.len() == i,
                forall|j: int|
                    0 <= j < i ==> (#[trigger] r@[j])@ == spec_encode_entry(self.entries()[j]),
            decreases self.queue@.len() - i,
        {
            let rec = encode_entry(&self.queue[i]);
            r.push(rec);
            i = i + 1;
        }
        r
    }
}

} // verus!
