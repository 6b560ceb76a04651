//! The way of a batch from the queue to the sink.
use std::collections::BTreeMap;
use vm_relay::audit::EventKind;
use vm_relay::config::ForwardPolicy;
use vm_relay::relay::egress::{
    batch_body, collect_batch, plan, Delivery, EgressPlan, EgressState, Verdict,
};
use vm_relay::relay::record::{encode_envelope, encode_key, Record};
use vm_relay::relay::store::StoreOp;

fn policy() -> ForwardPolicy {
    ForwardPolicy {
        base_backoff_ms: 1_000,
        max_backoff_ms: 300_000,
        max_jitter_ms: 2_000,
        batch_size: 1_000,
        poll_interval_ms: 100,
        request_timeout_seconds: 30,
        failure_threshold: 3,
    }
}

fn record(seq: u64, payload: &[u8]) -> Record {
    Record { key: encode_key(seq), value: encode_envelope(9, payload) }
}

fn batch() -> Vec<Record> {
    vec![record(7, b"a 1\n"), record(8, b"b 2\n")]
}

fn answered(status: u16) -> Delivery {
    Delivery::Answered { status, latency_ms: 12 }
}

fn unanswered() -> Delivery {
    Delivery::NoAnswer { reason: "connection refused".to_string() }
}

/// The store as a pair of ordered maps, for trying out changes.
struct Shelves {
    queue: BTreeMap<Vec<u8>, Vec<u8>>,
    dead: BTreeMap<Vec<u8>, Vec<u8>>,
}

impl Shelves {
    fn with(records: Vec<Record>) -> Shelves {
        let queue = records.into_iter().map(|r| (r.key, r.value)).collect();
        Shelves { queue, dead: BTreeMap::new() }
    }

    fn apply(&mut self, ops: Vec<StoreOp>) {
        for op in ops {
            match op {
                StoreOp::Insert(r) => {
                    self.queue.insert(r.key, r.value);
                }
                StoreOp::Remove(key) => {
                    self.queue.remove(&key);
                }
                StoreOp::DeadLetter(r) => {
                    self.queue.remove(&r.key);
                    self.dead.insert(r.key, r.value);
                }
            }
        }
    }
}

#[test]
fn a_batch_is_the_front_of_the_queue() {
    let scan = (0..5).map(|seq| Some(record(seq, b"x"))).collect();
    let batch = collect_batch(scan, 3);
    let keys: Vec<Vec<u8>> = batch.into_iter().map(|r| r.key).collect();
    assert_eq!(keys, vec![encode_key(0), encode_key(1), encode_key(2)]);
}

#[test]
fn unreadable_entries_count_but_are_left_out() {
    let scan = vec![Some(record(0, b"x")), None, Some(record(2, b"x")), Some(record(3, b"x"))];
    let batch = collect_batch(scan, 3);
    let keys: Vec<Vec<u8>> = batch.into_iter().map(|r| r.key).collect();
    assert_eq!(keys, vec![encode_key(0), encode_key(2)]);
    assert!(collect_batch(vec![Some(record(0, b"x"))], 0).is_empty());
    assert!(collect_batch(vec![], 10).is_empty());
}

#[test]
fn the_body_is_made_of_lines() {
    let batch = vec![record(0, b"a 1\nb 2\n"), record(1, b"c 3"), record(2, b"")];
    assert_eq!(batch_body(&batch), b"a 1\nb 2\nc 3\n".to_vec());
    assert!(batch_body(&vec![]).is_empty());
}

#[test]
fn what_is_no_envelope_is_forwarded_whole() {
    let batch = vec![Record { key: encode_key(0), value: b"d 4\n".to_vec() }];
    assert_eq!(batch_body(&batch), b"d 4\n".to_vec());
}

#[test]
fn an_empty_queue_is_looked_at_again_later() {
    match plan(&policy(), &vec![]) {
        EgressPlan::Idle { wait_ms } => assert_eq!(wait_ms, 100),
        other => panic!("{other:?}"),
    }
    match plan(&policy(), &batch()) {
        EgressPlan::Post { body } => assert_eq!(body, b"a 1\nb 2\n".to_vec()),
        other => panic!("{other:?}"),
    }
}

#[test]
fn statuses_are_told_apart() {
    for status in [200, 204, 299] {
        assert_eq!(answered(status).verdict(), Verdict::Delivered);
    }
    assert_eq!(answered(400).verdict(), Verdict::Rejected);
    for status in [100, 199, 300, 401, 404, 429, 500, 503] {
        assert_eq!(answered(status).verdict(), Verdict::Failed);
    }
    assert_eq!(unanswered().verdict(), Verdict::Failed);
    let handshake = Delivery::TlsFailed { reason: "bad certificate".to_string() };
    assert_eq!(handshake.verdict(), Verdict::Failed);
}

#[test]
fn a_delivered_batch_leaves_the_queue() {
    let mut state = EgressState::new(&policy());
    let mut shelves = Shelves::with(vec![
        record(7, b"a 1\n"),
        record(8, b"b 2\n"),
        record(9, b"c 3\n"),
    ]);
    let step = state.settle(&policy(), batch(), &answered(204));
    shelves.apply(step.ops);
    assert_eq!(shelves.queue.into_keys().collect::<Vec<_>>(), vec![encode_key(9)]);
    assert!(shelves.dead.is_empty());
    assert_eq!(step.wait_ms, 1);
    assert_eq!(step.notices.len(), 1);
    assert_eq!(step.notices[0].kind, EventKind::BatchDelivered);
    assert_eq!(step.notices[0].message, "Batch delivered; count=2; latency=12ms");
    assert_eq!(state.high_water, Some(8));
    assert_eq!(state.failures, 0);
}

#[test]
fn a_rejected_batch_is_set_aside() {
    let mut state = EgressState::new(&policy());
    let mut shelves = Shelves::with(batch());
    let step = state.settle(&policy(), batch(), &answered(400));
    shelves.apply(step.ops);
    assert!(shelves.queue.is_empty());
    assert_eq!(shelves.dead.get(&encode_key(7)), Some(&encode_envelope(9, b"a 1\n")));
    assert_eq!(shelves.dead.get(&encode_key(8)), Some(&encode_envelope(9, b"b 2\n")));
    assert_eq!(step.wait_ms, 500);
    assert_eq!(step.notices.len(), 1);
    assert_eq!(step.notices[0].kind, EventKind::BatchDeadLettered);
    assert_eq!(
        step.notices[0].message,
        "Dead-letter: batch rejected by server (HTTP 400); seq_start=7; seq_end=8"
    );
    assert_eq!(state, EgressState::new(&policy()));
}

#[test]
fn a_failed_batch_stays_where_it_is() {
    let mut state = EgressState::new(&policy());
    let step = state.settle_with(&policy(), batch(), &unanswered(), 250);
    assert!(step.ops.is_empty());
    assert_eq!(step.wait_ms, 1_250);
    assert_eq!(step.notices.len(), 1);
    assert_eq!(step.notices[0].kind, EventKind::DeliveryFailed);
    assert_eq!(
        step.notices[0].message,
        "Batch delivery failed; attempt=1; reason=connection refused; retrying in 1250ms"
    );
    assert_eq!(state, EgressState { backoff_ms: 2_000, failures: 1, high_water: None });
    let step = state.settle_with(&policy(), batch(), &answered(503), 0);
    assert_eq!(
        step.notices[0].message,
        "Batch delivery failed; attempt=2; reason=HTTP 503; retrying in 2000ms"
    );
}

#[test]
fn a_failed_handshake_is_logged_too() {
    let mut state = EgressState::new(&policy());
    let handshake = Delivery::TlsFailed { reason: "bad certificate".to_string() };
    let step = state.settle_with(&policy(), batch(), &handshake, 0);
    assert!(step.ops.is_empty());
    assert_eq!(step.notices.len(), 2);
    assert_eq!(step.notices[0].kind, EventKind::TlsHandshakeFailed);
    assert_eq!(step.notices[0].message, "TLS handshake failed; reason=bad certificate");
    assert_eq!(step.notices[1].kind, EventKind::DeliveryFailed);
}

#[test]
fn the_wait_doubles_up_to_its_bound() {
    let mut state = EgressState::new(&policy());
    let mut waits = Vec::new();
    for _ in 0..11 {
        waits.push(state.settle_with(&policy(), batch(), &unanswered(), 0).wait_ms);
    }
    assert_eq!(
        waits,
        vec![1_000, 2_000, 4_000, 8_000, 16_000, 32_000, 64_000, 128_000, 256_000, 300_000, 300_000]
    );
    state.settle_with(&policy(), batch(), &answered(200), 0);
    assert_eq!(state.backoff_ms, 1_000);
}

#[test]
fn the_wait_does_not_overflow() {
    let endless = ForwardPolicy { base_backoff_ms: u64::MAX, max_backoff_ms: u64::MAX, ..policy() };
    let mut state = EgressState::new(&endless);
    let step = state.settle_with(&endless, batch(), &unanswered(), 5);
    assert_eq!(step.wait_ms, u64::MAX);
    assert_eq!(state.backoff_ms, u64::MAX);
}

#[test]
fn many_failures_are_an_error() {
    let mut state = EgressState::new(&policy());
    let mut kinds = Vec::new();
    let mut last = String::new();
    for _ in 0..4 {
        let step = state.settle_with(&policy(), batch(), &unanswered(), 0);
        kinds.push(step.notices[0].kind);
        last = step.notices[0].message.clone();
    }
    assert_eq!(
        kinds,
        vec![
            EventKind::DeliveryFailed,
            EventKind::DeliveryFailed,
            EventKind::DeliveryFailed,
            EventKind::DeliveryFailing,
        ]
    );
    assert_eq!(
        last,
        "Consecutive delivery failures exceed threshold; count=4; retrying in 8000ms"
    );
}

#[test]
fn recovery_is_logged() {
    let mut state = EgressState::new(&policy());
    state.settle_with(&policy(), batch(), &unanswered(), 0);
    let step = state.settle_with(&policy(), batch(), &answered(200), 0);
    assert_eq!(step.notices.len(), 2);
    assert_eq!(step.notices[0].kind, EventKind::BatchDelivered);
    assert_eq!(step.notices[1].kind, EventKind::ForwardingResumed);
    assert_eq!(
        step.notices[1].message,
        "Network connectivity restored; forwarding resumed"
    );
    assert_eq!(state.failures, 0);
}

#[test]
fn a_rejected_batch_does_not_end_a_row_of_failures() {
    let mut state = EgressState::new(&policy());
    state.settle_with(&policy(), batch(), &unanswered(), 0);
    let before = state;
    state.settle_with(&policy(), batch(), &answered(400), 0);
    assert_eq!(state, before);
}

#[test]
fn the_jitter_is_below_its_bound() {
    let narrow = ForwardPolicy { max_jitter_ms: 3, ..policy() };
    let mut seen = [false; 3];
    for _ in 0..400 {
        let mut state = EgressState::new(&narrow);
        let step = state.settle(&narrow, batch(), &unanswered());
        assert!((1_000..1_003).contains(&step.wait_ms));
        seen[(step.wait_ms - 1_000) as usize] = true;
    }
    assert_eq!(seen, [true; 3]);
}

#[test]
fn odd_keys_have_no_number() {
    let mut state = EgressState::new(&policy());
    let odd = vec![Record { key: b"odd".to_vec(), value: vec![] }];
    let step = state.settle_with(&policy(), odd, &answered(400), 0);
    assert_eq!(
        step.notices[0].message,
        "Dead-letter: batch rejected by server (HTTP 400); seq_start=unknown; seq_end=unknown"
    );
    state.high_water = Some(4);
    let odd = vec![Record { key: b"odd".to_vec(), value: vec![] }];
    state.settle_with(&policy(), odd, &answered(200), 0);
    assert_eq!(state.high_water, Some(4));
}

#[test]
fn every_message_is_accounted_for() {
    let all: Vec<Record> = (0..4).map(|seq| record(seq, &[b'0' + seq as u8, b'\n'])).collect();
    let mut shelves = Shelves::with(vec![]);
    for r in all {
        shelves.apply(vec![StoreOp::Insert(r)]);
    }
    let mut state = EgressState::new(&policy());
    let take = |shelves: &Shelves, n: usize| {
        let scan = shelves
            .queue
            .iter()
            .map(|(k, v)| Some(Record { key: k.clone(), value: v.clone() }))
            .collect();
        collect_batch(scan, n)
    };
    // A failure keeps everything.
    let first = take(&shelves, 2);
    shelves.apply(state.settle(&policy(), first, &answered(503)).ops);
    assert_eq!(shelves.queue.len(), 4);
    // The first two are rejected, and come up no more.
    let first = take(&shelves, 2);
    shelves.apply(state.settle(&policy(), first, &answered(400)).ops);
    let left: Vec<Vec<u8>> = shelves.queue.keys().cloned().collect();
    assert_eq!(left, vec![encode_key(2), encode_key(3)]);
    let dead: Vec<Vec<u8>> = shelves.dead.keys().cloned().collect();
    assert_eq!(dead, vec![encode_key(0), encode_key(1)]);
    // The others are delivered, and the dead letters stay.
    let second = take(&shelves, 2);
    assert_eq!(batch_body(&second), b"2\n3\n".to_vec());
    shelves.apply(state.settle(&policy(), second, &answered(204)).ops);
    assert!(shelves.queue.is_empty());
    assert_eq!(shelves.dead.len(), 2);
    assert_eq!(shelves.dead.get(&encode_key(1)), Some(&encode_envelope(9, b"1\n")));
}

#[test]
fn the_wait_grows_with_the_failures_since_the_last_delivery() {
    let mut state = EgressState::new(&policy());
    let answers = [503, 200, 500, 404, 400, 503, 400, 204, 500];
    let mut backoffs = Vec::new();
    for (i, status) in answers.into_iter().enumerate() {
        let batch = vec![record(i as u64, b"x\n")];
        state.settle_with(&policy(), batch, &answered(status), 0);
        backoffs.push(state.backoff_ms);
    }
    assert_eq!(
        backoffs,
        vec![2_000, 1_000, 2_000, 4_000, 4_000, 8_000, 8_000, 1_000, 2_000]
    );
}

#[test]
fn a_base_above_the_bound_holds_until_the_first_failure() {
    let tight = ForwardPolicy { base_backoff_ms: 900, max_backoff_ms: 500, ..policy() };
    let mut state = EgressState::new(&tight);
    assert_eq!(state.backoff_ms, 900);
    state.settle_with(&tight, batch(), &unanswered(), 0);
    assert_eq!(state.backoff_ms, 500);
}

#[test]
fn a_batch_can_be_settled_after_more_has_been_committed() {
    let mut shelves = Shelves::with(batch());
    shelves.apply(vec![StoreOp::Insert(record(9, b"c 3\n"))]);
    let mut state = EgressState::new(&policy());
    shelves.apply(state.settle(&policy(), batch(), &answered(400)).ops);
    assert_eq!(shelves.queue.into_keys().collect::<Vec<_>>(), vec![encode_key(9)]);
    assert_eq!(shelves.dead.len(), 2);
}
