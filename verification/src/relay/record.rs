//! The stored form of a message: a key that orders it, a value that envelopes it.
use crate::bytes::{
    be_bytes, be_value, lemma_be_bytes_len, lemma_be_bytes_of_be_value, lemma_be_bytes_order,
    lemma_be_value_bound, lemma_be_value_of_be_bytes, lemma_pow256_small, lex_before, push_all,
    push_be, read_be,
};
use vstd::prelude::*;

verus! {

/// The bytes of a key.
pub const KEY_LEN: usize = 8;

/// The bytes of an envelope ahead of its payload.
pub const HEADER_LEN: usize = 12;

/// The key of sequence number `seq`: its big-endian bytes.
pub open spec fn key_of(seq: u64) -> Seq<u8> {
    be_bytes(seq as nat, 8)
}

/// The sequence number of a key, where `key` is one.
pub open spec fn seq_of(key: Seq<u8>) -> Option<u64> {
    if key.len() == 8 {
        Some(be_value(key) as u64)
    } else {
        None
    }
}

/// The envelope of `payload`: ingest time and payload length, both big-endian,
/// then the payload.
pub open spec fn envelope_of(ingest_ts_ns: u64, payload: Seq<u8>) -> Seq<u8> {
    be_bytes(ingest_ts_ns as nat, 8) + be_bytes(payload.len(), 4) + payload
}

/// The ingest time and the payload of a value, where `value` is an envelope.
pub open spec fn open_envelope(value: Seq<u8>) -> Option<(u64, Seq<u8>)> {
    if value.len() >= 12 && be_value(value.subrange(8, 12)) == value.len() - 12 {
        Some((be_value(value.take(8)) as u64, value.skip(12)))
    } else {
        None
    }
}

/// The key of `seq`.
pub fn encode_key(seq: u64) -> (key: Vec<u8>)
    ensures
        key@ == key_of(seq),
{
    let mut key: Vec<u8> = Vec::new();
    push_be(&mut key, seq, KEY_LEN);
    assert(key@ =~= key_of(seq));
    key
}

/// The sequence number of `key`; none where it is not eight bytes.
pub fn decode_key(key: &[u8]) -> (seq: Option<u64>)
    ensures
        seq == seq_of(key@),
{
    if key.len() != KEY_LEN {
        None
    } else {
        Some(read_be(key))
    }
}

/// The envelope of `payload`, received at `ingest_ts_ns`.
pub fn encode_envelope(ingest_ts_ns: u64, payload: &[u8]) -> (value: Vec<u8>)
    requires
        payload@.len() <= u32::MAX,
    ensures
        value@ == envelope_of(ingest_ts_ns, payload@),
{
    let mut value: Vec<u8> = Vec::new();
    push_be(&mut value, ingest_ts_ns, 8);
    push_be(&mut value, payload.len() as u64, 4);
    push_all(&mut value, payload);
    assert(value@ =~= envelope_of(ingest_ts_ns, payload@));
    value
}

/// The ingest time and the payload of `value`; none where it is no envelope.
pub fn decode_envelope(value: &[u8]) -> (opened: Option<(u64, &[u8])>)
    ensures
        opened is Some <==> open_envelope(value@) is Some,
        opened matches Some((ts, payload)) ==> open_envelope(value@) == Some((ts, payload@)),
{
    let total = value.len();
    if total < HEADER_LEN {
        return None;
    }
    let len = read_be(vstd::slice::slice_subrange(value, 8, HEADER_LEN));
    if len as u128 != (total - HEADER_LEN) as u128 {
        return None;
    }
    let time = vstd::slice::slice_subrange(value, 0, 8);
    let payload = vstd::slice::slice_subrange(value, HEADER_LEN, total);
    assert(time@ =~= value@.take(8));
    assert(payload@ =~= value@.skip(12));
    Some((read_be(time), payload))
}

/// A stored message.
#[derive(Debug)]
pub struct Record {
    pub key: Vec<u8>,
    pub value: Vec<u8>,
}

/// The contents of a [`Record`].
pub struct RecordView {
    pub key: Seq<u8>,
    pub value: Seq<u8>,
}

impl View for Record {
    type V = RecordView;

    open spec fn view(&self) -> RecordView {
        RecordView { key: self.key@, value: self.value@ }
    }
}

/// The contents of a list of records.
pub open spec fn record_views(records: Seq<Record>) -> Seq<RecordView> {
    records.map_values(|r: Record| r@)
}

/// Every sequence number is read back from its key.
pub proof fn law_key_round_trip(seq: u64)
    ensures
        seq_of(key_of(seq)) == Some(seq),
{
    lemma_be_bytes_len(seq as nat, 8);
    lemma_pow256_small();
    lemma_be_value_of_be_bytes(seq as nat, 8);
}

/// Every key is the key of the number read from it, so no two numbers share a key.
pub proof fn law_key_canonical(key: Seq<u8>)
    ensures
        seq_of(key) matches Some(seq) ==> key_of(seq) == key,
{
    if key.len() == 8 {
        lemma_be_value_bound(key);
        lemma_pow256_small();
        lemma_be_bytes_of_be_value(key);
    }
}

/// Keys sort as their sequence numbers do: the store, which walks its keys in
/// lexicographic order, hands messages out in the order in which they came.
pub proof fn law_key_order(a: u64, b: u64)
    ensures
        lex_before(key_of(a), key_of(b)) <==> a < b,
{
    lemma_pow256_small();
    lemma_be_bytes_len(a as nat, 8);
    lemma_be_bytes_len(b as nat, 8);
    if a < b {
        lemma_be_bytes_order(a as nat, b as nat, 8);
    } else if b < a {
        lemma_be_bytes_order(b as nat, a as nat, 8);
        lemma_lex_asymmetric(key_of(b), key_of(a));
    } else {
        lemma_lex_irreflexive(key_of(a));
    }
}

proof fn lemma_lex_irreflexive(a: Seq<u8>)
    ensures
        !lex_before(a, a),
{
}

proof fn lemma_lex_asymmetric(a: Seq<u8>, b: Seq<u8>)
    requires
        lex_before(a, b),
        a.len() == b.len(),
    ensures
        !lex_before(b, a),
{
    let i = choose|i: int|
        0 <= i < a.len() && i < b.len() && a.take(i) == b.take(i) && #[trigger] a[i] < b[i];
    if lex_before(b, a) {
        let j = choose|j: int|
            0 <= j < b.len() && j < a.len() && b.take(j) == a.take(j) && #[trigger] b[j] < a[j];
        if i < j {
            assert(b.take(j)[i] == a.take(j)[i]);
        } else if j < i {
            assert(a.take(i)[j] == b.take(i)[j]);
        }
    }
}

/// What was enveloped is read back from the envelope.
pub proof fn law_envelope_round_trip(ingest_ts_ns: u64, payload: Seq<u8>)
    requires
        payload.len() <= u32::MAX,
    ensures
        open_envelope(envelope_of(ingest_ts_ns, payload)) == Some((ingest_ts_ns, payload)),
{
    let value = envelope_of(ingest_ts_ns, payload);
    lemma_pow256_small();
    lemma_be_bytes_len(ingest_ts_ns as nat, 8);
    lemma_be_bytes_len(payload.len(), 4);
    lemma_be_value_of_be_bytes(ingest_ts_ns as nat, 8);
    lemma_be_value_of_be_bytes(payload.len(), 4);
    assert(value.take(8) =~= be_bytes(ingest_ts_ns as nat, 8));
    assert(value.subrange(8, 12) =~= be_bytes(payload.len(), 4));
    assert(value.skip(12) =~= payload);
}

/// A value that opens as an envelope is the envelope of what it holds.
pub proof fn law_envelope_canonical(value: Seq<u8>)
    ensures
        open_envelope(value) matches Some((ts, payload)) ==> envelope_of(ts, payload) == value,
{
    if open_envelope(value) is Some {
        lemma_be_value_bound(value.take(8));
        lemma_pow256_small();
        lemma_be_bytes_of_be_value(value.take(8));
        lemma_be_bytes_of_be_value(value.subrange(8, 12));
        assert(value =~= value.take(8) + value.subrange(8, 12) + value.skip(12));
    }
}

/// A key is eight bytes, each the digit of the sequence number in base 256.
pub proof fn law_key_layout(seq: u64)
    ensures
        key_of(seq) == seq![
            (seq / 0x0100_0000_0000_0000) as u8,
            (seq / 0x0001_0000_0000_0000 % 256) as u8,
            (seq / 0x0000_0100_0000_0000 % 256) as u8,
            (seq / 0x0000_0001_0000_0000 % 256) as u8,
            (seq / 0x0000_0000_0100_0000 % 256) as u8,
            (seq / 0x0000_0000_0001_0000 % 256) as u8,
            (seq / 0x0000_0000_0000_0100 % 256) as u8,
            (seq % 256) as u8,
        ],
{
    reveal_with_fuel(be_bytes, 9);
    assert(key_of(seq) =~= seq![
        (seq / 0x0100_0000_0000_0000) as u8,
        (seq / 0x0001_0000_0000_0000 % 256) as u8,
        (seq / 0x0000_0100_0000_0000 % 256) as u8,
        (seq / 0x0000_0001_0000_0000 % 256) as u8,
        (seq / 0x0000_0000_0100_0000 % 256) as u8,
        (seq / 0x0000_0000_0001_0000 % 256) as u8,
        (seq / 0x0000_0000_0000_0100 % 256) as u8,
        (seq % 256) as u8,
    ]);
}

/// An envelope is eight bytes that spell the ingest time, four that spell the length
/// of the payload, and the payload, byte for byte.
pub proof fn law_envelope_layout(ingest_ts_ns: u64, payload: Seq<u8>)
    requires
        payload.len() <= u32::MAX,
    ensures
        envelope_of(ingest_ts_ns, payload).len() == 12 + payload.len(),
        be_value(envelope_of(ingest_ts_ns, payload).take(8)) == ingest_ts_ns,
        be_value(envelope_of(ingest_ts_ns, payload).subrange(8, 12)) == payload.len(),
        envelope_of(ingest_ts_ns, payload).skip(12) == payload,
{
    lemma_pow256_small();
    lemma_be_bytes_len(ingest_ts_ns as nat, 8);
    lemma_be_bytes_len(payload.len(), 4);
    lemma_be_value_of_be_bytes(ingest_ts_ns as nat, 8);
    lemma_be_value_of_be_bytes(payload.len(), 4);
    let value = envelope_of(ingest_ts_ns, payload);
    assert(value.take(8) =~= be_bytes(ingest_ts_ns as nat, 8));
    assert(value.subrange(8, 12) =~= be_bytes(payload.len(), 4));
    assert(value.skip(12) =~= payload);
}

/// A value is opened exactly where it holds a header and as many bytes behind it as
/// the header says, and what is taken out is what stands there.
pub proof fn law_envelope_opening(value: Seq<u8>)
    ensures
        open_envelope(value) is Some <==> value.len() >= 12 && be_value(value.subrange(8, 12)) + 12
            == value.len(),
        open_envelope(value) matches Some((ts, payload)) ==> ts == be_value(value.take(8))
            && payload == value.skip(12),
{
    lemma_pow256_small();
    if value.len() >= 12 {
        lemma_be_value_bound(value.take(8));
    }
}

/// A view of records shows each of them, key and value, in order.
pub proof fn law_record_views_show_all(records: Seq<Record>, i: int)
    requires
        0 <= i < records.len(),
    ensures
        record_views(records).len() == records.len(),
        record_views(records)[i].key == records[i].key@,
        record_views(records)[i].value == records[i].value@,
{
}

/// A sequence number is read from any eight bytes, as the number that they spell,
/// and from nothing else.
pub proof fn law_key_reading(key: Seq<u8>)
    ensures
        seq_of(key) is Some <==> key.len() == 8,
        seq_of(key) matches Some(seq) ==> seq == be_value(key),
{
    lemma_pow256_small();
    lemma_be_value_bound(key);
}

} // verus!
