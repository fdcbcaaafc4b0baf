use vstd::prelude::*;
use vstd::pervasive::VecAdditionalExecFns;
use crate::batch::{SourceOffset, SourceOffsetModel, bytes_eq, copy_bytes};

verus! {

/// One source's progress: the furthest offset attempted and the furthest
/// offset durably confirmed. `confirmed` is `None` until the first flush
/// that covers this source.
pub struct OffsetRecord {
    pub source: Vec<u8>,
    pub attempted: u64,
    pub confirmed: Option<u64>,
}

/// Mathematical model of an `OffsetRecord`.
pub ghost struct OffsetRecordModel {
    pub source: Seq<u8>,
    pub attempted: u64,
    pub confirmed: Option<u64>,
}

impl View for OffsetRecord {
    type V = OffsetRecordModel;

    open spec fn view(&self) -> OffsetRecordModel {
        OffsetRecordModel {
            source: self.source@,
            attempted: self.attempted,
            confirmed: self.confirmed,
        }
    }
}

/// Whether some record in `s` is for source `key`.
pub open spec fn has_source(s: Seq<OffsetRecordModel>, key: Seq<u8>) -> bool {
    exists|i: int| 0 <= i < s.len() && s[i].source == key
}

/// The index of the record for source `key`; meaningful only when the
/// sources of `s` are distinct and `has_source(s, key)` holds.
pub open spec fn source_index(s: Seq<OffsetRecordModel>, key: Seq<u8>) -> int {
    choose|i: int| 0 <= i < s.len() && s[i].source == key
}

pub open spec fn max_u64(a: u64, b: u64) -> u64 {
    if a >= b {
        a
    } else {
        b
    }
}

/// The records after an eager write of `offset` for `key`: the record for
/// `key` keeps the furthest attempted offset seen so far, and a source never
/// written before gains a record with nothing confirmed yet.
pub open spec fn written(s: Seq<OffsetRecordModel>, key: Seq<u8>, offset: u64) -> Seq<
    OffsetRecordModel,
> {
    if has_source(s, key) {
        let i = source_index(s, key);
        s.update(
            i,
            OffsetRecordModel {
                source: key,
                attempted: max_u64(s[i].attempted, offset),
                confirmed: s[i].confirmed,
            },
        )
    } else {
        s.push(OffsetRecordModel { source: key, attempted: offset, confirmed: None })
    }
}

/// The records after a sequence of eager writes, applied front to back.
pub open spec fn written_all(
    s: Seq<OffsetRecordModel>,
    offs: Seq<SourceOffsetModel>,
) -> Seq<OffsetRecordModel>
    decreases offs.len(),
{
    if offs.len() == 0 {
        s
    } else {
        written_all(written(s, offs[0].source, offs[0].offset), offs.drop_first())
    }
}

/// The records after a durable flush: every source's confirmed offset
/// advances to its attempted offset.
pub open spec fn flushed(s: Seq<OffsetRecordModel>) -> Seq<OffsetRecordModel> {
    s.map_values(
        |r: OffsetRecordModel|
            OffsetRecordModel {
                source: r.source,
                attempted: r.attempted,
                confirmed: Some(r.attempted),
            },
    )
}

/// The attempted offset recorded for `key`, if any.
pub open spec fn attempted_of(s: Seq<OffsetRecordModel>, key: Seq<u8>) -> Option<u64> {
    if has_source(s, key) {
        Some(s[source_index(s, key)].attempted)
    } else {
        None
    }
}

/// The confirmed offset recorded for `key`, if any.
pub open spec fn confirmed_of(s: Seq<OffsetRecordModel>, key: Seq<u8>) -> Option<u64> {
    if has_source(s, key) {
        s[source_index(s, key)].confirmed
    } else {
        None
    }
}

/// Distinct sources, and nothing confirmed beyond what was attempted.
pub open spec fn records_wf(s: Seq<OffsetRecordModel>) -> bool {
    &&& forall|i: int, j: int| 0 <= i < j < s.len() ==> s[i].source != s[j].source
    &&& forall|i: int|
        0 <= i < s.len() ==> match #[trigger] s[i].confirmed {
            Some(c) => c <= s[i].attempted,
            None => true,
        }
}

/// Law: the durable checkpoint never runs ahead of the attempted offsets.
/// For every source, whatever is confirmed was also attempted, and the
/// confirmed offset is at most the attempted one. A crash between a write
/// and a flush can therefore only re-deliver already-read data, never skip
/// unread data: delivery is at-least-once, not at-most-once.
pub proof fn lemma_confirmed_behind_attempted(s: Seq<OffsetRecordModel>, key: Seq<u8>)
    requires
        records_wf(s),
    ensures
        confirmed_of(s, key) matches Some(c) ==> (attempted_of(s, key) matches Some(a) && c <= a),
{
    if has_source(s, key) {
        let i = source_index(s, key);
        assert(0 <= i < s.len() && s[i].source == key);
    }
}

/// Mapping from source identifier to attempted and confirmed offsets.
///
/// `write` advances the attempted offset eagerly, before the outcome of the
/// delivery is known; `flush` is the only operation that advances the
/// confirmed offsets, and it advances them to the attempted snapshot. So the
/// confirmed offset never exceeds the attempted offset, and a crash between
/// a write and a flush leaves the durable checkpoint behind the true read
/// position, never ahead of it.
pub struct OffsetStore {
    records: Vec<OffsetRecord>,
}

impl View for OffsetStore {
    type V = Seq<OffsetRecordModel>;

    closed spec fn view(&self) -> Seq<OffsetRecordModel> {
        self.records@.map_values(|r: OffsetRecord| r@)
    }
}

proof fn lemma_index_is_source_index(s: Seq<OffsetRecordModel>, key: Seq<u8>, i: int)
    requires
        forall|p: int, q: int| 0 <= p < q < s.len() ==> s[p].source != s[q].source,
        0 <= i < s.len(),
        s[i].source == key,
    ensures
        has_source(s, key),
        source_index(s, key) == i,
{
    assert(has_source(s, key));
    let j = source_index(s, key);
    if j < i {
        assert(s[j].source != s[i].source);
    } else if i < j {
        assert(s[i].source != s[j].source);
    }
}

impl OffsetStore {
    pub open spec fn wf(self) -> bool {
        records_wf(self@)
    }

    pub fn new() -> (s: OffsetStore)
        ensures
            s.wf(),
            s@.len() == 0,
    {
        OffsetStore { records: Vec::new() }
    }

    fn find(&self, key: &Vec<u8>) -> (r: Option<usize>)
        ensures
            match r {
                Some(i) => 0 <= i < self@.len() && self@[i as int].source == key@,
                None => !has_source(self@, key@),
            },
    {
        let mut i: usize = 0;
        while i < self.records.len()
            invariant
                i <= self.records@.len(),
                self@.len() == self.records@.len(),
                forall|j: int| 0 <= j < i ==> self@[j].source != key@,
            decreases self.records@.len() - i,
        {
            if bytes_eq(&self.records[i].source, key) {
                assert(self@[i as int].source == key@);
                return Some(i);
            }
            i = i + 1;
        }
        None
    }

    /// Upserts the attempted offset for one source; nothing confirmed moves.
    pub fn write(&mut self, source: &Vec<u8>, offset: u64)
        requires
            old(self).wf(),
        ensures
            final(self).wf(),
            final(self)@ == written(old(self)@, source@, offset),
    {
        match self.find(source) {
            Some(i) => {
                proof {
                    lemma_index_is_source_index(self@, source@, i as int);
                }
                let prior = self.records[i].attempted;
                let new_attempted = if prior >= offset {
                    prior
                } else {
                    offset
                };
                let new_rec = OffsetRecord {
                    source: copy_bytes(source),
                    attempted: new_attempted,
                    confirmed: self.records[i].confirmed,
                };
                self.records.set(i, new_rec);
                proof {
                    assert(self@ =~= written(old(self)@, source@, offset));
                }
            },
            None => {
                self.records.push(
                    OffsetRecord { source: copy_bytes(source), attempted: offset, confirmed: None },
                );
                proof {
                    assert(self@ =~= written(old(self)@, source@, offset));
                }
            },
        }
    }

    /// Writes every offset a batch carries, front to back.
    pub fn write_all(&mut self, offsets: &Vec<SourceOffset>)
        requires
            old(self).wf(),
        ensures
            final(self).wf(),
            final(self)@ == written_all(
                old(self)@,
                offsets@.map_values(|o: SourceOffset| o@),
            ),
    {
        let ghost offs = offsets@.map_values(|o: SourceOffset| o@);
        proof {
            assert(offs.skip(0) =~= offs);
        }
        let mut i: usize = 0;
        while i < offsets.len()
            invariant
                i <= offs.len(),
                offs.len() == offsets@.len(),
                offs == offsets@.map_values(|o: SourceOffset| o@),
                self.wf(),
                written_all(self@, offs.skip(i as int)) == written_all(old(self)@, offs),
            decreases offs.len() - i,
        {
            let ghost pre = self@;
            self.write(&offsets[i].source, offsets[i].offset);
            proof {
                assert(offs[i as int] == offsets@[i as int]@);
                assert(offs.skip(i as int)[0] == offs[i as int]);
                assert(offs.skip(i as int).drop_first() =~= offs.skip(i as int + 1));
                assert(written_all(pre, offs.skip(i as int)) == written_all(
                    self@,
                    offs.skip(i as int + 1),
                ));
            }
            i = i + 1;
        }
        proof {
            assert(offs.skip(offs.len() as int) =~= Seq::<SourceOffsetModel>::empty());
        }
    }

    /// Durably commits the current attempted snapshot as the confirmed
    /// checkpoint; invoked only after a transport success.
    pub fn flush(&mut self)
        requires
            old(self).wf(),
        ensures
            final(self).wf(),
            final(self)@ == flushed(old(self)@),
    {
        let mut i: usize = 0;
        while i < self.records.len()
            invariant
                i <= self.records@.len(),
                self@.len() == self.records@.len(),
                self@.len() == old(self)@.len(),
                forall|j: int| 0 <= j < i ==> self@[j] == flushed(old(self)@)[j],
                forall|j: int| i <= j < self@.len() ==> self@[j] == old(self)@[j],
            decreases self.records@.len() - i,
        {
            let ghost pre = self@;
            let a = self.records[i].attempted;
            self.records[i].confirmed = Some(a);
            proof {
                assert(self@ =~= pre.update(
                    i as int,
                    OffsetRecordModel {
                        source: pre[i as int].source,
                        attempted: pre[i as int].attempted,
                        confirmed: Some(pre[i as int].attempted),
                    },
                ));
                assert(flushed(old(self)@)[i as int] == OffsetRecordModel {
                    source: old(self)@[i as int].source,
                    attempted: old(self)@[i as int].attempted,
                    confirmed: Some(old(self)@[i as int].attempted),
                });
            }
            i = i + 1;
        }
        proof {
            assert(self@ =~= flushed(old(self)@));
        }
    }

    /// The attempted offset recorded for one source.
    pub fn attempted(&self, source: &Vec<u8>) -> (r: Option<u64>)
        requires
            self.wf(),
        ensures
            r == attempted_of(self@, source@),
    {
        match self.find(source) {
            Some(i) => {
                proof {
                    lemma_index_is_source_index(self@, source@, i as int);
                }
                Some(self.records[i].attempted)
            },
            None => None,
        }
    }

    /// The confirmed offset recorded for one source.
    pub fn confirmed(&self, source: &Vec<u8>) -> (r: Option<u64>)
        requires
            self.wf(),
        ensures
            r == confirmed_of(self@, source@),
    {
        match self.find(source) {
            Some(i) => {
                proof {
                    lemma_index_is_source_index(self@, source@, i as int);
                }
                self.records[i].confirmed
            },
            None => None,
        }
    }
}

} // verus!
