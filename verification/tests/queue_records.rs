//! What is stored for a message, and how numbering goes on.
use vm_relay::audit::EventKind;
use vm_relay::bytes::{push_be, push_be_minimal, read_be};
use vm_relay::relay::ingest::{
    Ingest, IngestAction, IngestEvent, READ_BUFFER_LEN, RELISTEN_PAUSE_MS,
};
use vm_relay::relay::record::{decode_envelope, decode_key, encode_envelope, encode_key};

fn numbering_at(next_seq: u64) -> Ingest {
    Ingest { next_seq, partial: vec![] }
}

fn part(data: &[u8]) -> IngestEvent {
    IngestEvent::Part { data: data.to_vec() }
}

fn received(data: &[u8], now_ns: u128) -> IngestEvent {
    IngestEvent::Received { data: data.to_vec(), now_ns }
}

#[test]
fn keys_are_big_endian() {
    assert_eq!(encode_key(0x0102_0304_0506_0708), vec![1, 2, 3, 4, 5, 6, 7, 8]);
    assert_eq!(encode_key(0), vec![0; 8]);
    for seq in [0, 1, 255, 256, u64::MAX] {
        assert_eq!(encode_key(seq), seq.to_be_bytes().to_vec());
        assert_eq!(decode_key(&encode_key(seq)), Some(seq));
    }
    assert_eq!(decode_key(&[]), None);
    assert_eq!(decode_key(&[0; 7]), None);
    assert_eq!(decode_key(&[0; 9]), None);
}

#[test]
fn keys_sort_as_their_numbers_do() {
    let numbers = [0u64, 1, 2, 255, 256, 65535, 1 << 32, u64::MAX - 1, u64::MAX];
    for a in numbers {
        for b in numbers {
            assert_eq!(encode_key(a) < encode_key(b), a < b);
        }
    }
}

#[test]
fn an_envelope_holds_time_length_and_payload() {
    let value = encode_envelope(0x0102_0304_0506_0708, b"abc");
    assert_eq!(value, vec![1, 2, 3, 4, 5, 6, 7, 8, 0, 0, 0, 3, b'a', b'b', b'c']);
    assert_eq!(decode_envelope(&value), Some((0x0102_0304_0506_0708, &b"abc"[..])));
    let value = encode_envelope(7, b"");
    assert_eq!(value.len(), 12);
    assert_eq!(decode_envelope(&value), Some((7, &b""[..])));
}

#[test]
fn what_is_no_envelope_is_not_opened() {
    let value = encode_envelope(7, b"abc");
    assert_eq!(decode_envelope(&value[..14]), None);
    assert_eq!(decode_envelope(&value[..11]), None);
    assert_eq!(decode_envelope(&[]), None);
    let mut longer = value.clone();
    longer.push(0);
    assert_eq!(decode_envelope(&longer), None);
}

#[test]
fn numbers_in_bytes() {
    let mut out = vec![9];
    push_be(&mut out, 0x1234, 4);
    assert_eq!(out, vec![9, 0, 0, 0x12, 0x34]);
    assert_eq!(read_be(&[0, 0, 0x12, 0x34]), 0x1234);
    let mut out = Vec::new();
    push_be_minimal(&mut out, 0x0001_0002);
    assert_eq!(out, vec![1, 0, 2]);
}

#[test]
fn a_message_is_stored_under_the_next_number() {
    let mut ingest = numbering_at(5);
    let step = ingest.step(received(b"m 1\n", 0x0102));
    match step.action {
        IngestAction::Store(record) => {
            assert_eq!(record.key, encode_key(5));
            assert_eq!(record.value, encode_envelope(0x0102, b"m 1\n"));
        }
        other => panic!("{other:?}"),
    }
    assert!(step.notices.is_empty());
    assert_eq!(ingest.next_seq, 5);
    let step = ingest.step(IngestEvent::Stored);
    assert!(matches!(step.action, IngestAction::Read));
    assert!(step.notices.is_empty());
    assert_eq!(ingest.next_seq, 6);
}

#[test]
fn a_refused_message_does_not_use_its_number_up() {
    let mut ingest = numbering_at(5);
    let step = ingest.step(IngestEvent::StoreFailed { reason: "disk full".to_string() });
    assert!(matches!(step.action, IngestAction::Read));
    assert_eq!(step.notices.len(), 1);
    assert_eq!(step.notices[0].kind, EventKind::StoreWriteFailed);
    assert_eq!(step.notices[0].message, "Fjall Write Error: disk full");
    assert_eq!(ingest.next_seq, 5);
}

#[test]
fn numbers_wrap_at_the_end() {
    let mut ingest = numbering_at(u64::MAX);
    ingest.step(IngestEvent::Stored);
    assert_eq!(ingest.next_seq, 0);
}

#[test]
fn the_time_keeps_its_low_bits() {
    let mut ingest = numbering_at(0);
    let step = ingest.step(received(b"x", (1u128 << 64) + 3));
    match step.action {
        IngestAction::Store(record) => assert_eq!(record.value, encode_envelope(3, b"x")),
        other => panic!("{other:?}"),
    }
}

#[test]
fn a_client_comes_and_goes() {
    let mut ingest = numbering_at(0);
    let step = ingest.step(IngestEvent::Connected);
    assert!(matches!(step.action, IngestAction::Read));
    assert_eq!(step.notices[0].kind, EventKind::PipeConnected);
    assert_eq!(step.notices[0].message, "Named pipe client connected");
    let step = ingest.step(received(b"", 0));
    assert!(matches!(step.action, IngestAction::Disconnect { pause_ms: 10 }));
    assert_eq!(step.notices[0].kind, EventKind::PipeDisconnected);
    assert_eq!(step.notices[0].message, "Named pipe client disconnected");
    assert_eq!(ingest.next_seq, 0);
}

#[test]
fn failures_at_the_pipe() {
    let mut ingest = numbering_at(0);
    let step = ingest.step(IngestEvent::ReadFailed { reason: "broken pipe".to_string() });
    assert!(matches!(step.action, IngestAction::Disconnect { pause_ms: 10 }));
    assert_eq!(step.notices[0].kind, EventKind::PipeReadFailed);
    assert_eq!(step.notices[0].message, "Named pipe read error: broken pipe");
    let step = ingest.step(IngestEvent::ConnectFailed);
    assert!(matches!(step.action, IngestAction::Relisten { pause_ms: 10 }));
    assert!(step.notices.is_empty());
    assert_eq!(RELISTEN_PAUSE_MS, 10);
    assert_eq!(READ_BUFFER_LEN, 65536);
}

#[test]
fn numbering_goes_on_behind_what_is_stored() {
    assert_eq!(Ingest::resume(None, None).next_seq, 0);
    assert_eq!(Ingest::resume(Some(&encode_key(41)), None).next_seq, 42);
    assert_eq!(Ingest::resume(None, Some(&encode_key(41))).next_seq, 42);
    assert_eq!(Ingest::resume(Some(&encode_key(41)), Some(&encode_key(99))).next_seq, 100);
    assert_eq!(Ingest::resume(Some(&encode_key(99)), Some(&encode_key(41))).next_seq, 100);
    assert_eq!(Ingest::resume(Some(b"odd"), None).next_seq, 0);
}

#[test]
fn a_long_message_is_stored_whole() {
    let message: Vec<u8> = (0..65537u32).map(|i| i as u8).collect();
    let mut ingest = numbering_at(0);
    let step = ingest.step(part(&message[..READ_BUFFER_LEN]));
    assert!(matches!(step.action, IngestAction::Read));
    assert!(step.notices.is_empty());
    let step = ingest.step(received(&message[READ_BUFFER_LEN..], 77));
    match step.action {
        IngestAction::Store(record) => {
            assert_eq!(record.key, encode_key(0));
            assert_eq!(decode_envelope(&record.value), Some((77, &message[..])));
        }
        other => panic!("{other:?}"),
    }
    assert!(step.notices.is_empty());
    ingest.step(IngestEvent::Stored);
    assert_eq!(ingest.next_seq, 1);
    // The next message starts anew.
    match ingest.step(received(b"next", 78)).action {
        IngestAction::Store(record) => assert_eq!(record.value, encode_envelope(78, b"next")),
        other => panic!("{other:?}"),
    }
}

#[test]
fn a_message_may_take_many_reads() {
    let mut ingest = numbering_at(4);
    for data in [&b"a"[..], b"bc", b"", b"def"] {
        assert!(matches!(ingest.step(part(data)).action, IngestAction::Read));
    }
    match ingest.step(received(b"g", 1)).action {
        IngestAction::Store(record) => {
            assert_eq!(record.key, encode_key(4));
            assert_eq!(record.value, encode_envelope(1, b"abcdefg"));
        }
        other => panic!("{other:?}"),
    }
}

#[test]
fn a_message_that_breaks_off_is_not_stored() {
    let mut ingest = numbering_at(0);
    ingest.step(part(b"abc"));
    let step = ingest.step(received(b"", 0));
    assert!(matches!(step.action, IngestAction::Disconnect { pause_ms: 10 }));
    assert_eq!(step.notices.len(), 2);
    assert_eq!(step.notices[0].kind, EventKind::PipeReadFailed);
    assert_eq!(
        step.notices[0].message,
        "Named pipe read error: message broken off after 3 bytes"
    );
    assert_eq!(step.notices[1].kind, EventKind::PipeDisconnected);
    assert!(ingest.partial.is_empty());
    ingest.step(part(b"abc"));
    ingest.step(IngestEvent::ReadFailed { reason: "broken pipe".to_string() });
    assert!(ingest.partial.is_empty());
}
