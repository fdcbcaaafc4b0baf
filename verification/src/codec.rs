use vstd::prelude::*;
use vstd::bytes::{
    lemma_auto_spec_u32_to_from_le_bytes, lemma_auto_spec_u64_to_from_le_bytes,
    spec_u32_from_le_bytes, spec_u32_to_le_bytes, spec_u64_from_le_bytes, spec_u64_to_le_bytes,
    u32_from_le_bytes, u32_to_le_bytes, u64_from_le_bytes, u64_to_le_bytes,
};
use vstd::slice::slice_subrange;
use crate::batch::{Batch, BatchModel, SourceOffsetModel, SourceOffset};
use crate::retry::{RetryEntry, RetryEntryModel};

verus! {

// The fixed on-disk record format of one retry entry, used by the
// disk-backed retry queue: little-endian fields, every variable-length part
// preceded by its length.
//
//   attempt        u32
//   enqueued_at    u64
//   offset count   u64
//   per offset:    source length u64, source bytes, offset u64
//   payload length u64
//   payload bytes
//
// A record decodes successfully exactly when it is byte-for-byte an
// encoding; anything else — a truncated write, a torn record, trailing
// garbage — is reported as corrupt, and the caller skips it.

/// The encoding of one carried source offset.
pub open spec fn spec_encode_offset(o: SourceOffsetModel) -> Seq<u8> {
    spec_u64_to_le_bytes(o.source.len() as u64) + o.source + spec_u64_to_le_bytes(o.offset)
}

/// The concatenated encodings of all carried source offsets.
pub open spec fn spec_encode_offsets(offs: Seq<SourceOffsetModel>) -> Seq<u8>
    decreases offs.len(),
{
    if offs.len() == 0 {
        Seq::empty()
    } else {
        spec_encode_offset(offs[0]) + spec_encode_offsets(offs.drop_first())
    }
}

/// The record encoding of one retry entry.
pub open spec fn spec_encode_entry(e: RetryEntryModel) -> Seq<u8> {
    spec_u32_to_le_bytes(e.attempt) + spec_u64_to_le_bytes(e.enqueued_at) + spec_u64_to_le_bytes(
        e.batch.offsets.len() as u64,
    ) + spec_encode_offsets(e.batch.offsets) + spec_u64_to_le_bytes(e.batch.payload.len() as u64)
        + e.batch.payload
}

/// Whether every length in the entry fits its length field. Every entry
/// built from in-memory vectors satisfies this.
pub open spec fn encodable(e: RetryEntryModel) -> bool {
    &&& e.batch.offsets.len() <= u64::MAX
    &&& e.batch.payload.len() <= u64::MAX
    &&& forall|i: int|
        0 <= i < e.batch.offsets.len() ==> (#[trigger] e.batch.offsets[i]).source.len() <= u64::MAX
}

/// Whether `n` offset encodings can be parsed from `s` starting at `pos`.
pub open spec fn offsets_ok(s: Seq<u8>, pos: int, n: nat) -> bool
    decreases n,
{
    if n == 0 {
        true
    } else if pos + 8 > s.len() {
        false
    } else {
        let k = spec_u64_from_le_bytes(s.subrange(pos, pos + 8)) as int;
        if pos + 16 + k > s.len() {
            false
        } else {
            offsets_ok(s, pos + 16 + k, (n - 1) as nat)
        }
    }
}

/// The position just past `n` offset encodings; meaningful when they parse.
pub open spec fn offsets_end(s: Seq<u8>, pos: int, n: nat) -> int
    decreases n,
{
    if n == 0 {
        pos
    } else if pos + 8 > s.len() {
        pos
    } else {
        let k = spec_u64_from_le_bytes(s.subrange(pos, pos + 8)) as int;
        if pos + 16 + k > s.len() {
            pos
        } else {
            offsets_end(s, pos + 16 + k, (n - 1) as nat)
        }
    }
}

/// The `n` offsets parsed from `s` at `pos`; meaningful when they parse.
pub open spec fn offsets_val(s: Seq<u8>, pos: int, n: nat) -> Seq<SourceOffsetModel>
    decreases n,
{
    if n == 0 {
        Seq::empty()
    } else if pos + 8 > s.len() {
        Seq::empty()
    } else {
        let k = spec_u64_from_le_bytes(s.subrange(pos, pos + 8)) as int;
        if pos + 16 + k > s.len() {
            Seq::empty()
        } else {
            let o = SourceOffsetModel {
                source: s.subrange(pos + 8, pos + 8 + k),
                offset: spec_u64_from_le_bytes(s.subrange(pos + 8 + k, pos + 16 + k)),
            };
            seq![o] + offsets_val(s, pos + 16 + k, (n - 1) as nat)
        }
    }
}

/// What parsing a whole record yields: the entry it encodes, or nothing if
/// the bytes are not exactly one record.
pub open spec fn spec_decode_entry(s: Seq<u8>) -> Option<RetryEntryModel> {
    if s.len() < 20 {
        None
    } else {
        let n = spec_u64_from_le_bytes(s.subrange(12, 20));
        if !offsets_ok(s, 20, n as nat) {
            None
        } else {
            let pos = offsets_end(s, 20, n as nat);
            if pos + 8 > s.len() {
                None
            } else {
                let m = spec_u64_from_le_bytes(s.subrange(pos, pos + 8)) as int;
                if pos + 8 + m != s.len() {
                    None
                } else {
                    Some(
                        RetryEntryModel {
                            batch: BatchModel {
                                payload: s.subrange(pos + 8, s.len() as int),
                                offsets: offsets_val(s, 20, n as nat),
                            },
                            enqueued_at: spec_u64_from_le_bytes(s.subrange(4, 12)),
                            attempt: spec_u32_from_le_bytes(s.subrange(0, 4)),
                        },
                    )
                }
            }
        }
    }
}

fn append_bytes(dst: &mut Vec<u8>, src: &Vec<u8>)
    ensures
        final(dst)@ == old(dst)@ + src@,
{
    let mut i: usize = 0;
    while i < src.len()
        invariant
            i <= src@.len(),
            dst@ == old(dst)@ + src@.take(i as int),
        decreases src@.len() - i,
    {
        dst.push(src[i]);
        proof {
            assert(dst@ =~= old(dst)@ + src@.take(i as int + 1));
        }
        i = i + 1;
    }
    proof {
        assert(old(dst)@ + src@.take(src@.len() as int) =~= old(dst)@ + src@);
    }
}

proof fn lemma_encode_offsets_snoc(offs: Seq<SourceOffsetModel>, o: SourceOffsetModel)
    ensures
        spec_encode_offsets(offs.push(o)) == spec_encode_offsets(offs) + spec_encode_offset(o),
    decreases offs.len(),
{
    if offs.len() == 0 {
        assert(offs =~= Seq::<SourceOffsetModel>::empty());
        assert(offs.push(o)[0] == o);
        assert(offs.push(o).drop_first() =~= Seq::<SourceOffsetModel>::empty());
        assert(spec_encode_offsets(Seq::<SourceOffsetModel>::empty()) == Seq::<u8>::empty());
        assert(spec_encode_offsets(offs.push(o)) == spec_encode_offset(o) + Seq::<u8>::empty());
        assert(spec_encode_offset(o) + Seq::<u8>::empty() =~= Seq::<u8>::empty()
            + spec_encode_offset(o));
    } else {
        assert(offs.push(o)[0] == offs[0]);
        assert(offs.push(o).drop_first() =~= offs.drop_first().push(o));
        lemma_encode_offsets_snoc(offs.drop_first(), o);
        assert(spec_encode_offset(offs[0]) + (spec_encode_offsets(offs.drop_first())
            + spec_encode_offset(o)) =~= (spec_encode_offset(offs[0]) + spec_encode_offsets(
            offs.drop_first(),
        )) + spec_encode_offset(o));
    }
}

/// Writes one retry entry as a record in the fixed persistence format.
pub fn encode_entry(e: &RetryEntry) -> (r: Vec<u8>)
    ensures
        r@ == spec_encode_entry(e@),
{
    proof {
        lemma_auto_spec_u32_to_from_le_bytes();
        lemma_auto_spec_u64_to_from_le_bytes();
    }
    let ghost offs = e@.batch.offsets;
    let mut out: Vec<u8> = Vec::new();
    let mut field = u32_to_le_bytes(e.attempt);
    out.append(&mut field);
    let mut field = u64_to_le_bytes(e.enqueued_at);
    out.append(&mut field);
    let mut field = u64_to_le_bytes(e.batch.offsets.len() as u64);
    out.append(&mut field);
    let ghost header = spec_u32_to_le_bytes(e@.attempt) + spec_u64_to_le_bytes(e@.enqueued_at)
        + spec_u64_to_le_bytes(offs.len() as u64);
    proof {
        assert(out@ =~= header + spec_encode_offsets(offs.take(0)));
    }
    let mut i: usize = 0;
    while i < e.batch.offsets.len()
        invariant
            i <= offs.len(),
            offs == e@.batch.offsets,
            offs.len() == e.batch.offsets@.len(),
            out@ == header + spec_encode_offsets(offs.take(i as int)),
        decreases offs.len() - i,
    {
        let source = &e.batch.offsets[i].source;
        let mut field = u64_to_le_bytes(source.len() as u64);
        out.append(&mut field);
        append_bytes(&mut out, source);
        let mut field = u64_to_le_bytes(e.batch.offsets[i].offset);
        out.append(&mut field);
        proof {
            lemma_auto_spec_u64_to_from_le_bytes();
            assert(offs[i as int] == e.batch.offsets@[i as int]@);
            lemma_encode_offsets_snoc(offs.take(i as int), offs[i as int]);
            assert(offs.take(i as int).push(offs[i as int]) =~= offs.take(i as int + 1));
            assert(out@ =~= header + spec_encode_offsets(offs.take(i as int + 1)));
        }
        i = i + 1;
    }
    proof {
        assert(offs.take(offs.len() as int) =~= offs);
    }
    let mut field = u64_to_le_bytes(e.batch.payload.len() as u64);
    out.append(&mut field);
    append_bytes(&mut out, &e.batch.payload);
    proof {
        assert(out@ =~= spec_encode_entry(e@));
    }
    out
}

proof fn lemma_offsets_round_trip(
    prefix: Seq<u8>,
    offs: Seq<SourceOffsetModel>,
    suffix: Seq<u8>,
)
    requires
        forall|i: int| 0 <= i < offs.len() ==> (#[trigger] offs[i]).source.len() <= u64::MAX,
    ensures
        offsets_ok(prefix + spec_encode_offsets(offs) + suffix, prefix.len() as int, offs.len()),
        offsets_end(prefix + spec_encode_offsets(offs) + suffix, prefix.len() as int, offs.len())
            == prefix.len() + spec_encode_offsets(offs).len(),
        offsets_val(prefix + spec_encode_offsets(offs) + suffix, prefix.len() as int, offs.len())
            == offs,
    decreases offs.len(),
{
    lemma_auto_spec_u64_to_from_le_bytes();
    let s = prefix + spec_encode_offsets(offs) + suffix;
    let p0 = prefix.len() as int;
    if offs.len() == 0 {
        assert(spec_encode_offsets(offs) == Seq::<u8>::empty());
        assert(offsets_val(s, p0, 0) =~= offs);
    } else {
        let o = offs[0];
        let k = o.source.len() as int;
        assert(o.source.len() <= u64::MAX);
        let enc1 = spec_encode_offset(o);
        let encrest = spec_encode_offsets(offs.drop_first());
        assert(spec_encode_offsets(offs) == enc1 + encrest);
        assert(spec_u64_to_le_bytes(o.source.len() as u64).len() == 8);
        assert(spec_u64_to_le_bytes(o.offset).len() == 8);
        assert(enc1.len() == 16 + k);
        assert(s.len() == prefix.len() + enc1.len() + encrest.len() + suffix.len());
        assert(s.subrange(p0, p0 + 8) =~= spec_u64_to_le_bytes(o.source.len() as u64));
        assert(spec_u64_from_le_bytes(s.subrange(p0, p0 + 8)) == o.source.len() as u64);
        assert(spec_u64_from_le_bytes(s.subrange(p0, p0 + 8)) as int == k);
        assert(s.subrange(p0 + 8, p0 + 8 + k) =~= o.source);
        assert(s.subrange(p0 + 8 + k, p0 + 16 + k) =~= spec_u64_to_le_bytes(o.offset));
        assert(spec_u64_from_le_bytes(s.subrange(p0 + 8 + k, p0 + 16 + k)) == o.offset);
        assert forall|i: int| 0 <= i < offs.drop_first().len() implies (#[trigger] offs.drop_first()[i]).source.len() <= u64::MAX by {
            assert(offs.drop_first()[i] == offs[i + 1]);
        }
        lemma_offsets_round_trip(prefix + enc1, offs.drop_first(), suffix);
        assert((prefix + enc1) + encrest + suffix =~= s);
        assert((prefix + enc1).len() as int == p0 + 16 + k);
        assert(offsets_ok(s, p0 + 16 + k, (offs.len() - 1) as nat));
        assert(offsets_end(s, p0 + 16 + k, (offs.len() - 1) as nat) == p0 + 16 + k
            + encrest.len());
        assert(offsets_val(s, p0 + 16 + k, (offs.len() - 1) as nat) == offs.drop_first());
        let parsed = SourceOffsetModel {
            source: s.subrange(p0 + 8, p0 + 8 + k),
            offset: spec_u64_from_le_bytes(s.subrange(p0 + 8 + k, p0 + 16 + k)),
        };
        assert(parsed == o);
        assert(offsets_val(s, p0, offs.len()) == seq![o] + offs.drop_first());
        assert(seq![o] + offs.drop_first() =~= offs);
    }
}

/// Law: a persisted record is read back as exactly the entry that was
/// written — decoding an encoding yields the same entry, payload, offsets,
/// enqueue time and attempt counter included. Pending retries therefore
/// survive a restart unchanged.
pub proof fn lemma_record_round_trip(e: RetryEntryModel)
    requires
        encodable(e),
    ensures
        spec_decode_entry(spec_encode_entry(e)) == Some(e),
{
    lemma_auto_spec_u32_to_from_le_bytes();
    lemma_auto_spec_u64_to_from_le_bytes();
    let s = spec_encode_entry(e);
    let a = spec_u32_to_le_bytes(e.attempt);
    let b = spec_u64_to_le_bytes(e.enqueued_at);
    let c = spec_u64_to_le_bytes(e.batch.offsets.len() as u64);
    let d = spec_encode_offsets(e.batch.offsets);
    let f = spec_u64_to_le_bytes(e.batch.payload.len() as u64);
    let g = e.batch.payload;
    assert(a.len() == 4);
    assert(s == a + b + c + d + f + g);
    assert(s.len() == 20 + d.len() + 8 + g.len());
    assert(s.subrange(0, 4) =~= a);
    assert(s.subrange(4, 12) =~= b);
    assert(s.subrange(12, 20) =~= c);
    assert(spec_u32_from_le_bytes(s.subrange(0, 4)) == e.attempt);
    assert(spec_u64_from_le_bytes(s.subrange(4, 12)) == e.enqueued_at);
    assert(spec_u64_from_le_bytes(s.subrange(12, 20)) == e.batch.offsets.len() as u64);
    assert(spec_u64_from_le_bytes(s.subrange(12, 20)) as nat == e.batch.offsets.len());
    let prefix = a + b + c;
    let suffix = f + g;
    assert(prefix.len() == 20);
    lemma_offsets_round_trip(prefix, e.batch.offsets, suffix);
    assert(prefix + d + suffix =~= s);
    let pos = 20 + d.len() as int;
    assert(offsets_ok(s, 20, e.batch.offsets.len()));
    assert(offsets_end(s, 20, e.batch.offsets.len()) == pos);
    assert(offsets_val(s, 20, e.batch.offsets.len()) == e.batch.offsets);
    assert(s.subrange(pos, pos + 8) =~= f);
    assert(spec_u64_from_le_bytes(s.subrange(pos, pos + 8)) == e.batch.payload.len() as u64);
    assert(pos + 8 + e.batch.payload.len() == s.len());
    assert(s.subrange(pos + 8, s.len() as int) =~= g);
}

fn read_u64_at(bytes: &Vec<u8>, pos: usize) -> (x: u64)
    requires
        pos + 8 <= bytes@.len(),
    ensures
        x == spec_u64_from_le_bytes(bytes@.subrange(pos as int, pos as int + 8)),
{
    let total = bytes.len();
    proof {
        assert(pos + 8 <= total);
    }
    let sl = slice_subrange(bytes.as_slice(), pos, pos + 8);
    u64_from_le_bytes(sl)
}

fn copy_range(bytes: &Vec<u8>, start: usize, end: usize) -> (r: Vec<u8>)
    requires
        start <= end <= bytes@.len(),
    ensures
        r@ == bytes@.subrange(start as int, end as int),
{
    let mut r: Vec<u8> = Vec::new();
    proof {
        assert(r@ =~= bytes@.subrange(start as int, start as int));
    }
    let mut i: usize = start;
    while i < end
        invariant
            start <= i <= end,
            end <= bytes@.len(),
            r@ == bytes@.subrange(start as int, i as int),
        decreases end - i,
    {
        r.push(bytes[i]);
        proof {
            assert(r@ =~= bytes@.subrange(start as int, i as int + 1));
        }
        i = i + 1;
    }
    r
}

/// Reads one record back, or reports it corrupt.
///
/// Exactly the byte strings that are a record encoding decode; a truncated,
/// torn or padded record yields `None`, and the caller skips it and goes on
/// with the next record — a corrupt record never stalls anything.
pub fn decode_entry(bytes: &Vec<u8>) -> (r: Option<RetryEntry>)
    ensures
        match r {
            Some(e) => spec_decode_entry(bytes@) == Some(e@),
            None => spec_decode_entry(bytes@) is None,
        },
{
    let ghost s = bytes@;
    if bytes.len() < 20 {
        return None;
    }
    let attempt = u32_from_le_bytes(slice_subrange(bytes.as_slice(), 0, 4));
    let enq = read_u64_at(bytes, 4);
    let n = read_u64_at(bytes, 12);
    let mut offsets: Vec<SourceOffset> = Vec::new();
    let mut pos: usize = 20;
    let mut i: u64 = 0;
    proof {
        assert(offsets@.map_values(|o: SourceOffset| o@) + offsets_val(s, 20, n as nat)
            =~= offsets_val(s, 20, n as nat));
    }
    while i < n
        invariant
            s == bytes@,
            20 <= pos <= s.len(),
            i <= n,
            n == spec_u64_from_le_bytes(s.subrange(12, 20)),
            offsets_ok(s, 20, n as nat) == offsets_ok(s, pos as int, (n - i) as nat),
            offsets_ok(s, pos as int, (n - i) as nat) ==> offsets_val(s, 20, n as nat)
                == offsets@.map_values(|o: SourceOffset| o@) + offsets_val(
                s,
                pos as int,
                (n - i) as nat,
            ),
            offsets_ok(s, pos as int, (n - i) as nat) ==> offsets_end(s, 20, n as nat)
                == offsets_end(s, pos as int, (n - i) as nat),
        decreases n - i,
    {
        let ghost rem_n = (n - i) as nat;
        if bytes.len() - pos < 8 {
            proof {
                assert(pos as int + 8 > s.len());
                assert(!offsets_ok(s, pos as int, rem_n));
            }
            return None;
        }
        let k64 = read_u64_at(bytes, pos);
        let rest = bytes.len() - pos - 8;
        if k64 > rest as u64 || (rest as u64) - k64 < 8 {
            proof {
                assert(pos as int + 16 + (k64 as int) > s.len());
                assert(!offsets_ok(s, pos as int, rem_n));
            }
            return None;
        }
        let k = k64 as usize;
        let source = copy_range(bytes, pos + 8, pos + 8 + k);
        let off = read_u64_at(bytes, pos + 8 + k);
        let ghost parsed_pre = offsets@.map_values(|o: SourceOffset| o@);
        offsets.push(SourceOffset { source, offset: off });
        proof {
            let o = SourceOffsetModel {
                source: s.subrange(pos as int + 8, pos as int + 8 + k as int),
                offset: spec_u64_from_le_bytes(
                    s.subrange(pos as int + 8 + k as int, pos as int + 16 + k as int),
                ),
            };
            assert(offsets_ok(s, pos as int, rem_n) == offsets_ok(
                s,
                pos as int + 16 + k as int,
                (rem_n - 1) as nat,
            ));
            assert(offsets_ok(s, pos as int, rem_n) ==> offsets_val(s, pos as int, rem_n)
                == seq![o] + offsets_val(s, pos as int + 16 + k as int, (rem_n - 1) as nat));
            assert(offsets_ok(s, pos as int, rem_n) ==> offsets_end(s, pos as int, rem_n)
                == offsets_end(s, pos as int + 16 + k as int, (rem_n - 1) as nat));
            assert(offsets@.map_values(|o2: SourceOffset| o2@) =~= parsed_pre + seq![o]);
            assert(parsed_pre + (seq![o] + offsets_val(
                s,
                pos as int + 16 + k as int,
                (rem_n - 1) as nat,
            )) =~= (parsed_pre + seq![o]) + offsets_val(
                s,
                pos as int + 16 + k as int,
                (rem_n - 1) as nat,
            ));
        }
        pos = pos + 16 + k;
        i = i + 1;
    }
    proof {
        assert(offsets_ok(s, pos as int, 0));
        assert(offsets_val(s, pos as int, 0) =~= Seq::<SourceOffsetModel>::empty());
        assert(offsets@.map_values(|o: SourceOffset| o@) + Seq::<SourceOffsetModel>::empty()
            =~= offsets@.map_values(|o: SourceOffset| o@));
        assert(offsets_end(s, pos as int, 0) == pos as int);
    }
    if bytes.len() - pos < 8 {
        return None;
    }
    let m64 = read_u64_at(bytes, pos);
    let rest = bytes.len() - pos - 8;
    if m64 != rest as u64 {
        return None;
    }
    let payload = copy_range(bytes, pos + 8, bytes.len());
    let entry = RetryEntry { batch: Batch { payload, offsets }, enqueued_at: enq, attempt };
    proof {
        assert(entry@.batch.offsets =~= offsets_val(s, 20, n as nat));
        assert(entry@.batch.payload =~= s.subrange(pos as int + 8, s.len() as int));
    }
    Some(entry)
}

} // verus!
