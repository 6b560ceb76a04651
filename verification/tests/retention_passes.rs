//! What a retention pass takes out of the queue.
use vm_relay::audit::EventKind;
use vm_relay::config::RetentionPolicy;
use vm_relay::relay::record::{encode_envelope, encode_key, Record};
use vm_relay::relay::retention::{enforce_retention, queued_bytes, RetentionStep};
use vm_relay::relay::store::StoreOp;

const SECOND: u64 = 1_000_000_000;

fn policy() -> RetentionPolicy {
    RetentionPolicy { max_disk_bytes: 100, max_age_seconds: 60, check_interval_seconds: 45 }
}

/// A record of 30 bytes, received at `seconds`.
fn record(seq: u64, seconds: u64) -> Record {
    Record { key: encode_key(seq), value: encode_envelope(seconds * SECOND, &[0; 10]) }
}

fn evicted(step: &RetentionStep) -> Vec<Vec<u8>> {
    step.ops
        .iter()
        .map(|op| match op {
            StoreOp::Remove(key) => key.clone(),
            other => panic!("{other:?}"),
        })
        .collect()
}

#[test]
fn old_records_go() {
    let records = vec![record(0, 39), record(1, 40), record(2, 41)];
    let step = enforce_retention(&policy(), 100 * SECOND, 90, records);
    assert_eq!(evicted(&step), vec![encode_key(0)]);
    assert_eq!(step.wait_seconds, 45);
    assert_eq!(step.notices.len(), 1);
    assert_eq!(step.notices[0].kind, EventKind::RetentionEnforced);
    assert_eq!(
        step.notices[0].message,
        "Fjall retention enforcement triggered; 1 records evicted"
    );
}

#[test]
fn within_its_limits_the_queue_keeps_everything() {
    let records = vec![record(0, 90), record(1, 95)];
    let step = enforce_retention(&policy(), 100 * SECOND, 100, records);
    assert!(step.ops.is_empty());
    assert_eq!(
        step.notices[0].message,
        "Fjall retention enforcement triggered; 0 records evicted"
    );
}

#[test]
fn the_oldest_make_room() {
    let records = (0..6).map(|seq| record(seq, 90)).collect();
    let step = enforce_retention(&policy(), 100 * SECOND, 180, records);
    assert_eq!(evicted(&step), vec![encode_key(0), encode_key(1), encode_key(2)]);
    assert_eq!(step.notices.len(), 2);
    assert_eq!(step.notices[0].kind, EventKind::DiskUsageHigh);
    assert_eq!(
        step.notices[0].message,
        "Fjall disk usage exceeds threshold (180% of maximum)"
    );
    assert_eq!(step.notices[1].kind, EventKind::RetentionEnforced);
}

#[test]
fn what_is_expired_makes_room_first() {
    // Three old records free 90 of 190 bytes, which is enough.
    let mut records: Vec<Record> = (0..3).map(|seq| record(seq, 90)).collect();
    records.extend((3..6).map(|seq| record(seq, 10)));
    let step = enforce_retention(&policy(), 100 * SECOND, 190, records);
    assert_eq!(evicted(&step), vec![encode_key(3), encode_key(4), encode_key(5)]);
}

#[test]
fn a_store_that_is_too_large_without_records_loses_them_all() {
    let records = vec![record(0, 90), record(1, 90)];
    let step = enforce_retention(&policy(), 100 * SECOND, 1_000, records);
    assert_eq!(evicted(&step), vec![encode_key(0), encode_key(1)]);
}

#[test]
fn a_record_without_a_time_has_no_age() {
    let records = vec![Record { key: encode_key(0), value: b"no envelope".to_vec() }];
    let step = enforce_retention(&policy(), u64::MAX, 50, records);
    assert!(step.ops.is_empty());
}

#[test]
fn a_record_from_the_future_is_fresh() {
    let step = enforce_retention(&policy(), SECOND, 50, vec![record(0, 500)]);
    assert!(step.ops.is_empty());
}

#[test]
fn a_limit_of_nothing_empties_the_queue() {
    let nothing = RetentionPolicy { max_disk_bytes: 0, ..policy() };
    let step = enforce_retention(&nothing, 100 * SECOND, 60, vec![record(0, 99), record(1, 99)]);
    assert_eq!(evicted(&step), vec![encode_key(0), encode_key(1)]);
    assert_eq!(step.notices.len(), 1);
}

#[test]
fn an_endless_age_is_never_reached() {
    let endless = RetentionPolicy { max_age_seconds: u64::MAX, ..policy() };
    let step = enforce_retention(&endless, u64::MAX, 50, vec![record(0, 0)]);
    assert!(step.ops.is_empty());
}

#[test]
fn a_pass_leaves_what_fits_and_the_next_one_leaves_it_alone() {
    let records: Vec<Record> = (0..6).map(|seq| record(seq, 90)).collect();
    assert_eq!(queued_bytes(&records), 180);
    assert_eq!(queued_bytes(&vec![]), 0);
    let step = enforce_retention(&policy(), 100 * SECOND, 180, records);
    assert_eq!(step.ops.len(), 3);
    let left: Vec<Record> = (3..6).map(|seq| record(seq, 90)).collect();
    let bytes = queued_bytes(&left);
    assert_eq!(bytes, 90);
    let step = enforce_retention(&policy(), 100 * SECOND, bytes, left);
    assert!(step.ops.is_empty());
}
