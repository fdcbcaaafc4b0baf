use vstd::prelude::*;

verus! {

/// Read progress carried by a batch: the position reached in one source.
pub struct SourceOffset {
    pub source: Vec<u8>,
    pub offset: u64,
}

/// Mathematical model of a `SourceOffset`.
pub ghost struct SourceOffsetModel {
    pub source: Seq<u8>,
    pub offset: u64,
}

impl View for SourceOffset {
    type V = SourceOffsetModel;

    open spec fn view(&self) -> SourceOffsetModel {
        SourceOffsetModel { source: self.source@, offset: self.offset }
    }
}

impl SourceOffset {
    pub fn new(source: Vec<u8>, offset: u64) -> (o: SourceOffset)
        ensures
            o@.source == source@,
            o@.offset == offset,
    {
        SourceOffset { source, offset }
    }
}

/// An immutable payload together with the ordered source offsets it carries.
///
/// A batch is created once by the tailer and never mutated; ownership moves
/// between the orchestrator, the transport and the retry engine.
pub struct Batch {
    pub payload: Vec<u8>,
    pub offsets: Vec<SourceOffset>,
}

/// Mathematical model of a `Batch`.
pub ghost struct BatchModel {
    pub payload: Seq<u8>,
    pub offsets: Seq<SourceOffsetModel>,
}

impl View for Batch {
    type V = BatchModel;

    open spec fn view(&self) -> BatchModel {
        BatchModel {
            payload: self.payload@,
            offsets: self.offsets@.map_values(|o: SourceOffset| o@),
        }
    }
}

impl Batch {
    pub fn new(payload: Vec<u8>, offsets: Vec<SourceOffset>) -> (b: Batch)
        ensures
            b@.payload == payload@,
            b@.offsets == offsets@.map_values(|o: SourceOffset| o@),
    {
        Batch { payload, offsets }
    }
}

/// Byte-for-byte copy of a byte vector.
pub fn copy_bytes(v: &Vec<u8>) -> (r: Vec<u8>)
    ensures
        r@ == v@,
{
    let mut r: Vec<u8> = Vec::new();
    let mut i: usize = 0;
    while i < v.len()
        invariant
            i <= v@.len(),
            r@.len() == i,
            forall|j: int| 0 <= j < i ==> r@[j] == v@[j],
        decreases v@.len() - i,
    {
        r.push(v[i]);
        i = i + 1;
    }
    proof {
        assert(r@ =~= v@);
    }
    r
}

/// Whether two byte vectors hold the same bytes.
pub fn bytes_eq(a: &Vec<u8>, b: &Vec<u8>) -> (r: bool)
    ensures
        r == (a@ == b@),
{
    if a.len() != b.len() {
        return false;
    }
    let mut i: usize = 0;
    while i < a.len()
        invariant
            i <= a@.len(),
            a@.len() == b@.len(),
            forall|j: int| 0 <= j < i ==> a@[j] == b@[j],
        decreases a@.len() - i,
    {
        if a[i] != b[i] {
            return false;
        }
        i = i + 1;
    }
    proof {
        assert(a@ =~= b@);
    }
    true
}

/// Verdict of the endpoint once the request itself went through.
pub enum Response {
    /// The endpoint accepted the batch.
    Sent,
    /// An application-level refusal, with the status code and the reason the
    /// endpoint returned. Such a refusal is treated as non-transient.
    Failed(u16, String),
}

/// A failure of the delivery attempt itself, before any endpoint result.
pub enum TransportError {
    /// The request could not be sent.
    SendError,
    /// The transport's own timeout elapsed.
    TimeoutError,
    /// Any other failure while performing the attempt.
    OtherError,
}

/// Terminal classification of one delivery attempt.
#[derive(Clone, Copy, PartialEq, Eq, Structural, Debug)]
pub enum DeliveryOutcome {
    /// Delivered and acknowledged; the offset snapshot was durably flushed.
    Acknowledged,
    /// Rejected by the endpoint; dropped without retry.
    Rejected,
    /// The transport failed transiently; the batch is held for a later attempt.
    Queued,
    /// The transport failed transiently, but the retry queue was at its
    /// bound; the batch is dropped.
    DroppedAtCapacity,
    /// The transport failed in a way that is not considered transient; the
    /// batch is dropped without retry.
    Discarded,
}

} // verus!
