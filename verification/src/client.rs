use vstd::prelude::*;
use crate::batch::{Batch, DeliveryOutcome, Response, TransportError};
use crate::limiter::AdmissionLimiter;
use crate::offset_store::{
    attempted_of, confirmed_of, flushed, max_u64, written_all, OffsetRecordModel, OffsetStore,
};
use crate::codec::{spec_decode_entry, spec_encode_entry};
use crate::retry::{
    next_attempt, spec_ready_at, RestoreOutcome, RetryEngine, RetryEntry, RetryEntryModel,
};

verus! {

/// Admission units the client grants by default: at most this many delivery
/// attempts are outstanding at once.
pub const DEFAULT_ADMISSION_CAPACITY: usize = 10;

/// Transport timeout the client starts with, in milliseconds.
pub const DEFAULT_TIMEOUT_MS: u64 = 30000;

/// A counter after one more event; saturates rather than wraps.
pub open spec fn bumped(c: u64) -> u64 {
    if c == u64::MAX {
        c
    } else {
        (c + 1) as u64
    }
}

/// A counter after adding `n`; saturates rather than wraps.
pub open spec fn added(c: u64, n: u64) -> u64 {
    if c > u64::MAX - n {
        u64::MAX
    } else {
        (c + n) as u64
    }
}

fn bump_counter(c: u64) -> (r: u64)
    ensures
        r == bumped(c),
{
    if c == u64::MAX {
        c
    } else {
        c + 1
    }
}

fn add_counter(c: u64, n: u64) -> (r: u64)
    ensures
        r == added(c, n),
{
    if c > u64::MAX - n {
        u64::MAX
    } else {
        c + n
    }
}

/// Counters exported for operators; every terminal outcome of a delivery
/// attempt shows up in exactly one of them, so no batch failure is silently
/// invisible.
struct DeliveryMetrics {
    successes: u64,
    failures: u64,
    timeouts: u64,
    bytes_submitted: u64,
}

/// Orchestrates one logical send operation: composes the offset store, the
/// admission limiter and the retry engine around a transport that the caller
/// runs.
///
/// The caller drives each delivery cycle through this sequence, performing
/// the actual I/O itself between the calls:
///
/// 1. `poll_retry` — drain one ready retry entry, if any, and deliver its
///    batch first (its offsets are written as attempted here);
/// 2. `stage` — record the new batch's offsets as attempted and its size;
/// 3. `try_admit` — claim an admission slot, retrying until granted;
/// 4. run the transport with the batch and the configured timeout;
/// 5. `complete` — classify the transport result: on `Sent` the offset
///    snapshot is durably flushed; an application-level `Failed` is dropped
///    without retry; `SendError` and `TimeoutError` requeue the batch; any
///    other transport error drops it. The slot is released on every path.
///
/// No failure of a single batch is fatal: every outcome is returned as a
/// classification and counted, and the client keeps serving later batches.
pub struct Client {
    offsets: OffsetStore,
    limiter: AdmissionLimiter,
    retry: RetryEngine,
    metrics: DeliveryMetrics,
    timeout_ms: u64,
}

impl Client {
    /// The offset records: attempted and confirmed progress per source.
    pub closed spec fn store(self) -> Seq<OffsetRecordModel> {
        self.offsets@
    }

    /// The retry queue, oldest first.
    pub closed spec fn queue(self) -> Seq<RetryEntryModel> {
        self.retry.entries()
    }

    pub closed spec fn queue_capacity(self) -> usize {
        self.retry.capacity()
    }

    pub closed spec fn retry_base_delay(self) -> u64 {
        self.retry.base_delay()
    }

    pub closed spec fn retry_cap_delay(self) -> u64 {
        self.retry.cap_delay()
    }

    pub closed spec fn last_enqueue(self) -> u64 {
        self.retry.last_enqueue()
    }

    pub closed spec fn outstanding(self) -> usize {
        self.limiter.outstanding()
    }

    pub closed spec fn admission_capacity(self) -> usize {
        self.limiter.capacity()
    }

    pub closed spec fn successes(self) -> u64 {
        self.metrics.successes
    }

    pub closed spec fn failures(self) -> u64 {
        self.metrics.failures
    }

    pub closed spec fn timeouts(self) -> u64 {
        self.metrics.timeouts
    }

    pub closed spec fn bytes_submitted(self) -> u64 {
        self.metrics.bytes_submitted
    }

    pub closed spec fn timeout(self) -> u64 {
        self.timeout_ms
    }

    pub closed spec fn wf(self) -> bool {
        &&& self.offsets.wf()
        &&& self.limiter.wf()
        &&& self.retry.wf()
    }

    /// The tunables: capacities and delays never change after construction.
    pub open spec fn same_config(self, other: Client) -> bool {
        &&& self.queue_capacity() == other.queue_capacity()
        &&& self.retry_base_delay() == other.retry_base_delay()
        &&& self.retry_cap_delay() == other.retry_cap_delay()
        &&& self.admission_capacity() == other.admission_capacity()
    }

    /// All four counters as they were.
    pub open spec fn same_counters(self, other: Client) -> bool {
        &&& self.successes() == other.successes()
        &&& self.failures() == other.failures()
        &&& self.timeouts() == other.timeouts()
        &&& self.bytes_submitted() == other.bytes_submitted()
    }

    pub fn new(retry_capacity: usize, retry_base_delay_ms: u64, retry_cap_delay_ms: u64) -> (c:
        Client)
        ensures
            c.wf(),
            c.store().len() == 0,
            c.queue().len() == 0,
            c.queue_capacity() == retry_capacity,
            c.retry_base_delay() == retry_base_delay_ms,
            c.retry_cap_delay() == retry_cap_delay_ms,
            c.last_enqueue() == 0,
            c.admission_capacity() == DEFAULT_ADMISSION_CAPACITY,
            c.outstanding() == 0,
            c.successes() == 0,
            c.failures() == 0,
            c.timeouts() == 0,
            c.bytes_submitted() == 0,
            c.timeout() == DEFAULT_TIMEOUT_MS,
    {
        Client {
            offsets: OffsetStore::new(),
            limiter: AdmissionLimiter::new(DEFAULT_ADMISSION_CAPACITY),
            retry: RetryEngine::new(retry_capacity, retry_base_delay_ms, retry_cap_delay_ms),
            metrics: DeliveryMetrics { successes: 0, failures: 0, timeouts: 0, bytes_submitted: 0 },
            timeout_ms: DEFAULT_TIMEOUT_MS,
        }
    }

    /// Sets the transport timeout the caller should enforce on each attempt.
    pub fn set_timeout(&mut self, timeout_ms: u64)
        requires
            old(self).wf(),
        ensures
            final(self).wf(),
            final(self).same_config(*old(self)),
            final(self).same_counters(*old(self)),
            final(self).timeout() == timeout_ms,
            final(self).store() == old(self).store(),
            final(self).queue() == old(self).queue(),
            final(self).last_enqueue() == old(self).last_enqueue(),
            final(self).outstanding() == old(self).outstanding(),
    {
        self.timeout_ms = timeout_ms;
    }

    /// The transport timeout currently configured, in milliseconds.
    pub fn timeout_millis(&self) -> (t: u64)
        ensures
            t == self.timeout(),
    {
        self.timeout_ms
    }

    /// Drains one ready retry entry, if any, ahead of the new batch.
    ///
    /// The entry's carried offsets are written to the store as attempted;
    /// the caller must then deliver the entry's batch through the transport
    /// (under its own admission slot) and report the result to `complete`.
    /// Entries leave in strict enqueue order, oldest first.
    pub fn poll_retry(&mut self, now_ms: u64) -> (r: Option<RetryEntry>)
        requires
            old(self).wf(),
        ensures
            final(self).wf(),
            final(self).same_config(*old(self)),
            final(self).same_counters(*old(self)),
            final(self).timeout() == old(self).timeout(),
            final(self).outstanding() == old(self).outstanding(),
            final(self).last_enqueue() == old(self).last_enqueue(),
            match r {
                Some(e) => {
                    &&& old(self).queue().len() > 0
                    &&& now_ms >= spec_ready_at(
                        old(self).queue()[0],
                        old(self).retry_base_delay(),
                        old(self).retry_cap_delay(),
                    )
                    &&& e@ == old(self).queue()[0]
                    &&& final(self).queue() == old(self).queue().drop_first()
                    &&& forall|i: int|
                        0 <= i < old(self).queue().len() ==> e@.enqueued_at
                            <= #[trigger] old(self).queue()[i].enqueued_at
                    &&& final(self).store() == written_all(old(self).store(), e@.batch.offsets)
                },
                None => {
                    &&& (old(self).queue().len() == 0 || now_ms < spec_ready_at(
                        old(self).queue()[0],
                        old(self).retry_base_delay(),
                        old(self).retry_cap_delay(),
                    ))
                    &&& final(self).queue() == old(self).queue()
                    &&& final(self).store() == old(self).store()
                },
            },
    {
        match self.retry.poll(now_ms) {
            Some(e) => {
                self.offsets.write_all(&e.batch.offsets);
                Some(e)
            },
            None => None,
        }
    }

    /// Records a new batch before its delivery: its offsets are written to
    /// the store as attempted — eagerly, before the outcome of the network
    /// call is known — and its payload size is counted.
    pub fn stage(&mut self, batch: &Batch)
        requires
            old(self).wf(),
        ensures
            final(self).wf(),
            final(self).same_config(*old(self)),
            final(self).timeout() == old(self).timeout(),
            final(self).outstanding() == old(self).outstanding(),
            final(self).queue() == old(self).queue(),
            final(self).last_enqueue() == old(self).last_enqueue(),
            final(self).store() == written_all(old(self).store(), batch@.offsets),
            final(self).bytes_submitted() == added(
                old(self).bytes_submitted(),
                batch@.payload.len() as u64,
            ),
            final(self).successes() == old(self).successes(),
            final(self).failures() == old(self).failures(),
            final(self).timeouts() == old(self).timeouts(),
    {
        self.metrics.bytes_submitted = add_counter(
            self.metrics.bytes_submitted,
            batch.payload.len() as u64,
        );
        self.offsets.write_all(&batch.offsets);
    }

    /// Claims an admission slot for one delivery attempt. A caller that is
    /// refused must wait for an outstanding attempt to complete and ask
    /// again; no batch may be handed to the transport without a slot.
    pub fn try_admit(&mut self) -> (granted: bool)
        requires
            old(self).wf(),
        ensures
            final(self).wf(),
            final(self).same_config(*old(self)),
            final(self).same_counters(*old(self)),
            final(self).timeout() == old(self).timeout(),
            final(self).queue() == old(self).queue(),
            final(self).last_enqueue() == old(self).last_enqueue(),
            final(self).store() == old(self).store(),
            granted <==> old(self).outstanding() < old(self).admission_capacity(),
            granted ==> final(self).outstanding() == old(self).outstanding() + 1,
            !granted ==> final(self).outstanding() == old(self).outstanding(),
    {
        self.limiter.try_acquire()
    }

    /// Classifies the transport result for one delivery attempt and
    /// releases the attempt's admission slot.
    ///
    /// - `Ok(Sent)`: the success counter moves and the whole attempted
    ///   snapshot is durably flushed — the only operation that ever advances
    ///   confirmed offsets.
    /// - `Ok(Failed(..))`: an application-level rejection; the failure
    ///   counter moves and the batch is dropped, never requeued, whatever
    ///   the status code. This asymmetry with transport failures is policy.
    /// - `Err(SendError)` / `Err(TimeoutError)`: transient; the matching
    ///   counter moves and the batch is requeued with its attempt counter
    ///   incremented — unless the queue is at capacity, in which case the
    ///   batch is dropped and that is reported.
    /// - Any other transport error: counted and dropped without retry.
    ///
    /// Confirmed offsets move if and only if the result was `Sent`.
    pub fn complete(
        &mut self,
        batch: Batch,
        prior_attempt: u32,
        result: Result<Response, TransportError>,
        now_ms: u64,
    ) -> (outcome: DeliveryOutcome)
        requires
            old(self).wf(),
            old(self).outstanding() > 0,
        ensures
            final(self).wf(),
            final(self).same_config(*old(self)),
            final(self).timeout() == old(self).timeout(),
            final(self).outstanding() == old(self).outstanding() - 1,
            final(self).bytes_submitted() == old(self).bytes_submitted(),
            (result matches Ok(Response::Sent)) ==> {
                &&& outcome == DeliveryOutcome::Acknowledged
                &&& final(self).store() == flushed(old(self).store())
                &&& final(self).queue() == old(self).queue()
                &&& final(self).last_enqueue() == old(self).last_enqueue()
                &&& final(self).successes() == bumped(old(self).successes())
                &&& final(self).failures() == old(self).failures()
                &&& final(self).timeouts() == old(self).timeouts()
            },
            (result matches Ok(Response::Failed(_, _))) ==> {
                &&& outcome == DeliveryOutcome::Rejected
                &&& final(self).store() == old(self).store()
                &&& final(self).queue() == old(self).queue()
                &&& final(self).last_enqueue() == old(self).last_enqueue()
                &&& final(self).successes() == old(self).successes()
                &&& final(self).failures() == bumped(old(self).failures())
                &&& final(self).timeouts() == old(self).timeouts()
            },
            (result matches Err(TransportError::SendError) || result matches Err(
                TransportError::TimeoutError,
            )) ==> {
                &&& final(self).store() == old(self).store()
                &&& final(self).successes() == old(self).successes()
                &&& (result matches Err(TransportError::SendError) ==> final(self).failures() == bumped(
                    old(self).failures(),
                ) && final(self).timeouts() == old(self).timeouts())
                &&& (result matches Err(TransportError::TimeoutError) ==> final(self).timeouts()
                    == bumped(old(self).timeouts()) && final(self).failures() == old(
                    self,
                ).failures())
                &&& if old(self).queue().len() < old(self).queue_capacity() {
                    &&& outcome == DeliveryOutcome::Queued
                    &&& final(self).queue() == old(self).queue().push(
                        RetryEntryModel {
                            batch: batch@,
                            enqueued_at: max_u64(now_ms, old(self).last_enqueue()),
                            attempt: next_attempt(prior_attempt),
                        },
                    )
                    &&& final(self).last_enqueue() == max_u64(now_ms, old(self).last_enqueue())
                } else {
                    &&& outcome == DeliveryOutcome::DroppedAtCapacity
                    &&& final(self).queue() == old(self).queue()
                    &&& final(self).last_enqueue() == old(self).last_enqueue()
                }
            },
            (result matches Err(TransportError::OtherError)) ==> {
                &&& outcome == DeliveryOutcome::Discarded
                &&& final(self).store() == old(self).store()
                &&& final(self).queue() == old(self).queue()
                &&& final(self).last_enqueue() == old(self).last_enqueue()
                &&& final(self).successes() == old(self).successes()
                &&& final(self).failures() == bumped(old(self).failures())
                &&& final(self).timeouts() == old(self).timeouts()
            },
    {
        self.limiter.release();
        match result {
            Ok(Response::Sent) => {
                self.metrics.successes = bump_counter(self.metrics.successes);
                self.offsets.flush();
                DeliveryOutcome::Acknowledged
            },
            Ok(Response::Failed(_, _)) => {
                self.metrics.failures = bump_counter(self.metrics.failures);
                DeliveryOutcome::Rejected
            },
            Err(TransportError::SendError) => {
                self.metrics.failures = bump_counter(self.metrics.failures);
                let accepted = self.retry.retry(batch, prior_attempt, now_ms);
                if accepted {
                    DeliveryOutcome::Queued
                } else {
                    DeliveryOutcome::DroppedAtCapacity
                }
            },
            Err(TransportError::TimeoutError) => {
                self.metrics.timeouts = bump_counter(self.metrics.timeouts);
                let accepted = self.retry.retry(batch, prior_attempt, now_ms);
                if accepted {
                    DeliveryOutcome::Queued
                } else {
                    DeliveryOutcome::DroppedAtCapacity
                }
            },
            Err(TransportError::OtherError) => {
                self.metrics.failures = bump_counter(self.metrics.failures);
                DeliveryOutcome::Discarded
            },
        }
    }

    /// Rebuilds one queued retry entry from a persisted record image, at
    /// startup before the first poll. Corrupt records are skipped and
    /// reported; rehydration goes on with the next record.
    pub fn restore_retry(&mut self, record: &Vec<u8>) -> (r: RestoreOutcome)
        requires
            old(self).wf(),
        ensures
            final(self).wf(),
            final(self).same_config(*old(self)),
            final(self).same_counters(*old(self)),
            final(self).timeout() == old(self).timeout(),
            final(self).outstanding() == old(self).outstanding(),
            final(self).store() == old(self).store(),
            match spec_decode_entry(record@) {
                Some(e) => {
                    if old(self).queue().len() < old(self).queue_capacity() {
                        &&& r == RestoreOutcome::Restored
                        &&& final(self).queue() == old(self).queue().push(
                            RetryEntryModel {
                                batch: e.batch,
                                enqueued_at: max_u64(e.enqueued_at, old(self).last_enqueue()),
                                attempt: e.attempt,
                            },
                        )
                        &&& final(self).last_enqueue() == max_u64(
                            e.enqueued_at,
                            old(self).last_enqueue(),
                        )
                    } else {
                        &&& r == RestoreOutcome::AtCapacity
                        &&& final(self).queue() == old(self).queue()
                        &&& final(self).last_enqueue() == old(self).last_enqueue()
                    }
                },
                None => {
                    &&& r == RestoreOutcome::Corrupt
                    &&& final(self).queue() == old(self).queue()
                    &&& final(self).last_enqueue() == old(self).last_enqueue()
                },
            },
    {
        self.retry.restore(record)
    }

    /// Renders the retry queue in the persistence format, oldest first, for
    /// the caller to write to the retry directory.
    pub fn snapshot_retry(&self) -> (r: Vec<Vec<u8>>)
        ensures
            r@.len() == self.queue().len(),
            forall|i: int|
                0 <= i < r@.len() ==> (#[trigger] r@[i])@ == spec_encode_entry(self.queue()[i]),
    {
        self.retry.snapshot_records()
    }

    /// The attempted offset recorded for one source.
    pub fn attempted_offset(&self, source: &Vec<u8>) -> (r: Option<u64>)
        requires
            self.wf(),
        ensures
            r == attempted_of(self.store(), source@),
    {
        self.offsets.attempted(source)
    }

    /// The confirmed offset recorded for one source.
    pub fn confirmed_offset(&self, source: &Vec<u8>) -> (r: Option<u64>)
        requires
            self.wf(),
        ensures
            r == confirmed_of(self.store(), source@),
    {
        self.offsets.confirmed(source)
    }

    /// Number of entries currently held for retry.
    pub fn retry_len(&self) -> (n: usize)
        ensures
            n == self.queue().len(),
    {
        self.retry.len()
    }

    /// Number of admission slots currently held.
    pub fn outstanding_count(&self) -> (n: usize)
        ensures
            n == self.outstanding(),
    {
        self.limiter.outstanding_count()
    }

    pub fn success_count(&self) -> (n: u64)
        ensures
            n == self.successes(),
    {
        self.metrics.successes
    }

    pub fn failure_count(&self) -> (n: u64)
        ensures
            n == self.failures(),
    {
        self.metrics.failures
    }

    pub fn timeout_count(&self) -> (n: u64)
        ensures
            n == self.timeouts(),
    {
        self.metrics.timeouts
    }

    pub fn bytes_submitted_count(&self) -> (n: u64)
        ensures
            n == self.bytes_submitted(),
    {
        self.metrics.bytes_submitted
    }
}

} // verus!
