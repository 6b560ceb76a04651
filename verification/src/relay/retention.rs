//! Retention: what the queue gives up when it holds too much, or for too long.
use crate::audit::{notice, notice_views, EventKind, Notice, NoticeView};
use crate::bytes::be_value;
use crate::config::RetentionPolicy;
use crate::relay::record::{
    decode_envelope, envelope_of, law_envelope_opening, law_envelope_round_trip, open_envelope,
    record_views, Record, RecordView,
};
use crate::relay::store::{op_views, Contents, StoreOp, StoreOpView};
use crate::text::{decimal, push_decimal};
use vstd::prelude::*;

verus! {

/// The bytes that dropping a record frees.
pub open spec fn size_of(r: RecordView) -> nat {
    r.key.len() + r.value.len()
}

/// Whether a record is older than the policy lets it grow. A record without an
/// ingest time has no age.
pub open spec fn is_expired(policy: RetentionPolicy, now_ns: u64, r: RecordView) -> bool {
    match open_envelope(r.value) {
        Some((ts, payload)) => now_ns - ts > policy.max_age_seconds * 1_000_000_000,
        None => false,
    }
}

/// The bytes of the expired records among `records`.
pub open spec fn expired_bytes(
    policy: RetentionPolicy,
    now_ns: u64,
    records: Seq<RecordView>,
) -> nat
    decreases records.len(),
{
    if records.len() == 0 {
        0
    } else {
        let rest = expired_bytes(policy, now_ns, records.drop_last());
        if is_expired(policy, now_ns, records.last()) {
            rest + size_of(records.last())
        } else {
            rest
        }
    }
}

/// The bytes of the records among `records` that are not expired.
pub open spec fn fresh_bytes(policy: RetentionPolicy, now_ns: u64, records: Seq<RecordView>) -> nat
    decreases records.len(),
{
    if records.len() == 0 {
        0
    } else {
        let rest = fresh_bytes(policy, now_ns, records.drop_last());
        if is_expired(policy, now_ns, records.last()) {
            rest
        } else {
            rest + size_of(records.last())
        }
    }
}

/// Whether record `i` of the queue, oldest first, is to go: because it is expired,
/// or because the store takes too much space even without the expired records and
/// without all fresh records that are older than this one.
pub open spec fn is_evicted(
    policy: RetentionPolicy,
    now_ns: u64,
    disk_bytes: u64,
    records: Seq<RecordView>,
    i: int,
) -> bool {
    ||| is_expired(policy, now_ns, records[i])
    ||| disk_bytes - expired_bytes(policy, now_ns, records) - fresh_bytes(
        policy,
        now_ns,
        records.take(i),
    ) > policy.max_disk_bytes
}

/// The changes that evict what is to go of the first `n` records, oldest first.
pub open spec fn evictions(
    policy: RetentionPolicy,
    now_ns: u64,
    disk_bytes: u64,
    records: Seq<RecordView>,
    n: nat,
) -> Seq<StoreOpView>
    decreases n,
{
    if n == 0 {
        seq![]
    } else {
        let rest = evictions(policy, now_ns, disk_bytes, records, (n - 1) as nat);
        if is_evicted(policy, now_ns, disk_bytes, records, n - 1) {
            rest.push(StoreOpView::Remove(records[n - 1].key))
        } else {
            rest
        }
    }
}

/// What the audit trail is told of a pass that evicts `count` records.
pub open spec fn retention_notices(
    policy: RetentionPolicy,
    disk_bytes: u64,
    count: nat,
) -> Seq<NoticeView> {
    let enforced = NoticeView {
        kind: EventKind::RetentionEnforced,
        message: "Fjall retention enforcement triggered; "@ + decimal(count) + " records evicted"@,
    };
    if disk_bytes > policy.max_disk_bytes && policy.max_disk_bytes > 0 {
        seq![
            NoticeView {
                kind: EventKind::DiskUsageHigh,
                message: "Fjall disk usage exceeds threshold ("@ + decimal(
                    (disk_bytes as nat * 100) / (policy.max_disk_bytes as nat),
                ) + "% of maximum)"@,
            },
            enforced,
        ]
    } else {
        seq![enforced]
    }
}

/// What follows from a pass over the queue.
#[derive(Debug)]
pub struct RetentionStep {
    /// The changes to the store, in order.
    pub ops: Vec<StoreOp>,
    pub notices: Vec<Notice>,
    /// The wait before the next pass.
    pub wait_seconds: u64,
}

/// Tells whether `record` is older than the policy lets it grow.
fn expired(policy: &RetentionPolicy, now_ns: u64, record: &Record) -> (r: bool)
    ensures
        r == is_expired(*policy, now_ns, record@),
{
    match decode_envelope(record.value.as_slice()) {
        Some((ts, _)) => {
            let max_age: u128 = policy.max_age_seconds as u128 * 1_000_000_000;
            ts < now_ns && (now_ns - ts) as u128 > max_age
        },
        None => false,
    }
}

/// What is left of `bytes` without `record`; nothing where the record is larger.
fn without(bytes: u64, record: &Record) -> (left: u64)
    ensures
        left == if size_of(record@) <= bytes {
            bytes - size_of(record@)
        } else {
            0
        },
{
    bytes.saturating_sub(record.key.len() as u64).saturating_sub(record.value.len() as u64)
}

/// The bytes of all of `records`.
pub open spec fn total_bytes(records: Seq<RecordView>) -> nat
    decreases records.len(),
{
    if records.len() == 0 {
        0
    } else {
        total_bytes(records.drop_last()) + size_of(records.last())
    }
}

/// The bytes that `records` take, as far as the number goes.
pub fn queued_bytes(records: &Vec<Record>) -> (bytes: u64)
    ensures
        bytes == if total_bytes(record_views(records@)) <= u64::MAX {
            total_bytes(record_views(records@)) as int
        } else {
            u64::MAX as int
        },
{
    let ghost views = record_views(records@);
    let mut bytes: u64 = 0;
    let mut i: usize = 0;
    while i < records.len()
        invariant
            i <= records@.len(),
            views == record_views(records@),
            bytes == if total_bytes(views.take(i as int)) <= u64::MAX {
                total_bytes(views.take(i as int)) as int
            } else {
                u64::MAX as int
            },
        decreases records@.len() - i,
    {
        assert(views.take(i + 1).drop_last() =~= views.take(i as int));
        let record = &records[i];
        bytes = bytes.saturating_add(record.key.len() as u64).saturating_add(
            record.value.len() as u64,
        );
        i = i + 1;
    }
    assert(views.take(i as int) =~= views);
    bytes
}

/// Makes a pass over the queue, oldest record first, at `now_ns` nanoseconds since
/// the epoch, while the store takes `disk_bytes` bytes.
pub fn enforce_retention(
    policy: &RetentionPolicy,
    now_ns: u64,
    disk_bytes: u64,
    records: Vec<Record>,
) -> (step: RetentionStep)
    ensures
        op_views(step.ops@) == evictions(
            *policy,
            now_ns,
            disk_bytes,
            record_views(records@),
            records@.len(),
        ),
        notice_views(step.notices@) == retention_notices(*policy, disk_bytes, step.ops@.len()),
        step.wait_seconds == policy.check_interval_seconds,
{
    let ghost views = record_views(records@);
    let mut left: u64 = disk_bytes;
    let mut i: usize = 0;
    while i < records.len()
        invariant
            i <= records@.len(),
            views == record_views(records@),
            left == if expired_bytes(*policy, now_ns, views.take(i as int)) <= disk_bytes {
                disk_bytes - expired_bytes(*policy, now_ns, views.take(i as int))
            } else {
                0
            },
        decreases records@.len() - i,
    {
        proof {
            assert(views.take(i + 1).drop_last() =~= views.take(i as int));
        }
        if expired(policy, now_ns, &records[i]) {
            left = without(left, &records[i]);
        }
        i = i + 1;
    }
    assert(views.take(i as int) =~= views);
    let ghost dead = expired_bytes(*policy, now_ns, views);
    let mut ops: Vec<StoreOp> = Vec::new();
    for record in it: records
        invariant
            views == record_views(it.seq()),
            dead == expired_bytes(*policy, now_ns, views),
            left == if dead + fresh_bytes(*policy, now_ns, views.take(it.index())) <= disk_bytes {
                disk_bytes - dead - fresh_bytes(*policy, now_ns, views.take(it.index()))
            } else {
                0
            },
            op_views(ops@) == evictions(*policy, now_ns, disk_bytes, views, it.index() as nat),
    {
        let ghost n = it.index();
        let ghost done = ops@;
        let ghost key = record.key@;
        proof {
            assert(record@ == views[n]);
            assert(views.take(n + 1).drop_last() =~= views.take(n));
        }
        let old_enough = expired(policy, now_ns, &record);
        let evict = old_enough || left > policy.max_disk_bytes;
        if !old_enough {
            left = without(left, &record);
        }
        if evict {
            ops.push(StoreOp::Remove(record.key));
            assert(op_views(ops@) =~= op_views(done).push(StoreOpView::Remove(key)));
        }
    }
    let mut notices: Vec<Notice> = Vec::new();
    if disk_bytes > policy.max_disk_bytes && policy.max_disk_bytes > 0 {
        let percent: u128 = disk_bytes as u128 * 100 / policy.max_disk_bytes as u128;
        let mut text = "Fjall disk usage exceeds threshold (".to_owned();
        push_decimal(&mut text, percent);
        text.append("% of maximum)");
        notices.push(notice(EventKind::DiskUsageHigh, text));
    }
    let mut text = "Fjall retention enforcement triggered; ".to_owned();
    push_decimal(&mut text, ops.len() as u128);
    text.append(" records evicted");
    notices.push(notice(EventKind::RetentionEnforced, text));
    assert(notice_views(notices@) =~= retention_notices(*policy, disk_bytes, ops@.len()));
    RetentionStep { ops, notices, wait_seconds: policy.check_interval_seconds }
}

/// Every expired record goes.
pub proof fn law_expired_records_go(
    policy: RetentionPolicy,
    now_ns: u64,
    disk_bytes: u64,
    records: Seq<RecordView>,
    i: int,
)
    requires
        is_expired(policy, now_ns, records[i]),
    ensures
        is_evicted(policy, now_ns, disk_bytes, records, i),
{
}

/// While the store is within its limits, no record goes before it is expired.
pub proof fn law_fresh_records_stay(
    policy: RetentionPolicy,
    now_ns: u64,
    disk_bytes: u64,
    records: Seq<RecordView>,
    i: int,
)
    requires
        !is_expired(policy, now_ns, records[i]),
        disk_bytes <= policy.max_disk_bytes,
    ensures
        !is_evicted(policy, now_ns, disk_bytes, records, i),
{
}

proof fn lemma_fresh_bytes_grow(
    policy: RetentionPolicy,
    now_ns: u64,
    records: Seq<RecordView>,
    i: int,
    j: int,
)
    requires
        0 <= i <= j <= records.len(),
    ensures
        fresh_bytes(policy, now_ns, records.take(i)) <= fresh_bytes(
            policy,
            now_ns,
            records.take(j),
        ),
    decreases j - i,
{
    if i < j {
        lemma_fresh_bytes_grow(policy, now_ns, records, i, j - 1);
        assert(records.take(j).drop_last() =~= records.take(j - 1));
    }
}

/// Oldest first: where a record has to make room, every older one goes too.
pub proof fn law_oldest_go_first(
    policy: RetentionPolicy,
    now_ns: u64,
    disk_bytes: u64,
    records: Seq<RecordView>,
    i: int,
    j: int,
)
    requires
        0 <= i <= j < records.len(),
        is_evicted(policy, now_ns, disk_bytes, records, j),
        !is_expired(policy, now_ns, records[j]),
    ensures
        is_evicted(policy, now_ns, disk_bytes, records, i),
{
    lemma_fresh_bytes_grow(policy, now_ns, records, i, j);
}

/// The bytes of what is evicted of the first `n` records.
pub open spec fn evicted_bytes(
    policy: RetentionPolicy,
    now_ns: u64,
    disk_bytes: u64,
    records: Seq<RecordView>,
    n: nat,
) -> nat
    decreases n,
{
    if n == 0 {
        0
    } else {
        let rest = evicted_bytes(policy, now_ns, disk_bytes, records, (n - 1) as nat);
        if is_evicted(policy, now_ns, disk_bytes, records, n - 1) {
            rest + size_of(records[n - 1])
        } else {
            rest
        }
    }
}

proof fn lemma_evicted_bytes(
    policy: RetentionPolicy,
    now_ns: u64,
    disk_bytes: u64,
    records: Seq<RecordView>,
    n: nat,
)
    requires
        n <= records.len(),
    ensures
        ({
            let front = records.take(n as int);
            let expired = expired_bytes(policy, now_ns, front);
            let fresh = fresh_bytes(policy, now_ns, front);
            let gone = evicted_bytes(policy, now_ns, disk_bytes, records, n);
            &&& expired + fresh == total_bytes(front)
            &&& gone == expired + fresh || disk_bytes - expired_bytes(policy, now_ns, records) - (
            gone - expired) <= policy.max_disk_bytes
        }),
    decreases n,
{
    if n > 0 {
        lemma_evicted_bytes(policy, now_ns, disk_bytes, records, (n - 1) as nat);
        assert(records.take(n as int).drop_last() =~= records.take(n - 1));
    }
}

/// A pass brings the store within its space, or leaves the queue empty: what it
/// evicts frees enough, or is everything.
pub proof fn law_space_is_bounded(
    policy: RetentionPolicy,
    now_ns: u64,
    disk_bytes: u64,
    records: Seq<RecordView>,
)
    ensures
        ({
            let gone = evicted_bytes(policy, now_ns, disk_bytes, records, records.len());
            disk_bytes - gone <= policy.max_disk_bytes || gone == total_bytes(records)
        }),
{
    lemma_evicted_bytes(policy, now_ns, disk_bytes, records, records.len());
    assert(records.take(records.len() as int) =~= records);
}

/// Where the space is measured by the records themselves, the records that a pass
/// leaves are always within the space.
pub proof fn law_queue_fits_its_space(
    policy: RetentionPolicy,
    now_ns: u64,
    disk_bytes: u64,
    records: Seq<RecordView>,
)
    requires
        disk_bytes == total_bytes(records),
    ensures
        total_bytes(records) - evicted_bytes(policy, now_ns, disk_bytes, records, records.len())
            <= policy.max_disk_bytes,
{
    law_space_is_bounded(policy, now_ns, disk_bytes, records);
}

/// Whether `key` is the key of an evicted record among the first `n`.
pub open spec fn evicts_key(
    policy: RetentionPolicy,
    now_ns: u64,
    disk_bytes: u64,
    records: Seq<RecordView>,
    n: nat,
    key: Seq<u8>,
) -> bool {
    exists|i: int|
        0 <= i < n && is_evicted(policy, now_ns, disk_bytes, records, i) && #[trigger] records[i].key
            == key
}

proof fn lemma_evictions_apply(
    contents: Contents,
    policy: RetentionPolicy,
    now_ns: u64,
    disk_bytes: u64,
    records: Seq<RecordView>,
    n: nat,
    key: Seq<u8>,
)
    requires
        n <= records.len(),
    ensures
        ({
            let after = contents.apply_all(evictions(policy, now_ns, disk_bytes, records, n));
            &&& after.dead == contents.dead
            &&& after.queue.contains_key(key) <==> contents.queue.contains_key(key) && !evicts_key(
                policy,
                now_ns,
                disk_bytes,
                records,
                n,
                key,
            )
            &&& after.queue.contains_key(key) ==> after.queue[key] == contents.queue[key]
        }),
    decreases n,
{
    if n > 0 {
        let m = (n - 1) as nat;
        lemma_evictions_apply(contents, policy, now_ns, disk_bytes, records, m, key);
        let ops = evictions(policy, now_ns, disk_bytes, records, n);
        if is_evicted(policy, now_ns, disk_bytes, records, n - 1) {
            assert(ops.drop_last() =~= evictions(policy, now_ns, disk_bytes, records, m));
            assert(records[n - 1].key == records[n - 1].key);
        }
        if evicts_key(policy, now_ns, disk_bytes, records, m, key) {
            let i = choose|i: int|
                0 <= i < m && is_evicted(policy, now_ns, disk_bytes, records, i)
                    && #[trigger] records[i].key == key;
            assert(records[i].key == key);
        }
        if evicts_key(policy, now_ns, disk_bytes, records, n, key) {
            let i = choose|i: int|
                0 <= i < n && is_evicted(policy, now_ns, disk_bytes, records, i)
                    && #[trigger] records[i].key == key;
            assert(records[i].key == key);
        }
    }
}

/// A pass takes exactly the evicted records out of the queue, changes no other one,
/// and leaves the dead letters alone.
pub proof fn law_retention_drops_only_evicted(
    contents: Contents,
    policy: RetentionPolicy,
    now_ns: u64,
    disk_bytes: u64,
    records: Seq<RecordView>,
    key: Seq<u8>,
)
    ensures
        ({
            let after = contents.apply_all(
                evictions(policy, now_ns, disk_bytes, records, records.len()),
            );
            &&& after.dead == contents.dead
            &&& after.queue.contains_key(key) <==> contents.queue.contains_key(key) && !evicts_key(
                policy,
                now_ns,
                disk_bytes,
                records,
                records.len(),
                key,
            )
            &&& after.queue.contains_key(key) ==> after.queue[key] == contents.queue[key]
        }),
{
    lemma_evictions_apply(contents, policy, now_ns, disk_bytes, records, records.len(), key);
}

/// Age decides, by the nanosecond: while the store is within its space, a pass takes out
/// exactly those records whose ingest time lies more than the given seconds back, one
/// second being 1_000_000_000 nanoseconds; each record adds its removal or nothing.
pub proof fn law_age_decides(
    policy: RetentionPolicy,
    now_ns: u64,
    disk_bytes: u64,
    records: Seq<RecordView>,
    n: nat,
    ts: u64,
    payload: Seq<u8>,
)
    requires
        n < records.len(),
        disk_bytes <= policy.max_disk_bytes,
        payload.len() <= u32::MAX,
        records[n as int].value == envelope_of(ts, payload),
    ensures
        evictions(policy, now_ns, disk_bytes, records, n + 1) == if now_ns - ts
            > policy.max_age_seconds * 1_000_000_000 {
            evictions(policy, now_ns, disk_bytes, records, n).push(
                StoreOpView::Remove(records[n as int].key),
            )
        } else {
            evictions(policy, now_ns, disk_bytes, records, n)
        },
        is_evicted(policy, now_ns, disk_bytes, records, n as int) <==> now_ns - ts
            > policy.max_age_seconds * 1_000_000_000,
{
    law_envelope_round_trip(ts, payload);
}

/// The removals of a pass are those of its records, one by one: none for no records, and
/// for each record its own removal or nothing, whatever the age and the space.
pub proof fn law_pass_goes_record_by_record(
    policy: RetentionPolicy,
    now_ns: u64,
    disk_bytes: u64,
    records: Seq<RecordView>,
    n: nat,
)
    requires
        n < records.len(),
    ensures
        evictions(policy, now_ns, disk_bytes, records, 0).len() == 0,
        ({
            let value = records[n as int].value;
            let old = value.len() >= 12 && be_value(value.subrange(8, 12)) + 12 == value.len()
                && now_ns - be_value(value.take(8)) > policy.max_age_seconds * 1_000_000_000;
            let left = disk_bytes - expired_bytes(policy, now_ns, records) - fresh_bytes(
                policy,
                now_ns,
                records.take(n as int),
            );
            evictions(policy, now_ns, disk_bytes, records, n + 1) == if old || left
                > policy.max_disk_bytes {
                evictions(policy, now_ns, disk_bytes, records, n).push(
                    StoreOpView::Remove(records[n as int].key),
                )
            } else {
                evictions(policy, now_ns, disk_bytes, records, n)
            }
        }),
{
    law_envelope_opening(records[n as int].value);
}

/// The bytes of records add up: each takes those of its key and of its value, and counts
/// as expired exactly where its ingest time lies more than the given seconds back.
pub proof fn law_bytes_add_up(
    policy: RetentionPolicy,
    now_ns: u64,
    records: Seq<RecordView>,
    r: RecordView,
)
    ensures
        ({
            let old = r.value.len() >= 12 && be_value(r.value.subrange(8, 12)) + 12 == r.value.len()
                && now_ns - be_value(r.value.take(8)) > policy.max_age_seconds * 1_000_000_000;
            let size = r.key.len() + r.value.len();
            let more = records.push(r);
            &&& total_bytes(more) == total_bytes(records) + size
            &&& old ==> expired_bytes(policy, now_ns, more) == expired_bytes(
                policy,
                now_ns,
                records,
            ) + size && fresh_bytes(policy, now_ns, more) == fresh_bytes(policy, now_ns, records)
            &&& !old ==> fresh_bytes(policy, now_ns, more) == fresh_bytes(policy, now_ns, records)
                + size && expired_bytes(policy, now_ns, more) == expired_bytes(
                policy,
                now_ns,
                records,
            )
        }),
        total_bytes(seq![]) == 0,
        expired_bytes(policy, now_ns, seq![]) == 0,
        fresh_bytes(policy, now_ns, seq![]) == 0,
{
    law_envelope_opening(r.value);
    assert(records.push(r).drop_last() =~= records);
}

/// Every pass is logged with the number of records that it evicts, and one over too large
/// a store with the rounded-down percentage that it takes of its space.
pub proof fn law_retention_notices(policy: RetentionPolicy, disk_bytes: u64, count: nat)
    ensures
        ({
            let notices = retention_notices(policy, disk_bytes, count);
            let high = disk_bytes > policy.max_disk_bytes && policy.max_disk_bytes > 0;
            &&& notices.last().kind == EventKind::RetentionEnforced
            &&& notices.last().message == "Fjall retention enforcement triggered; "@ + decimal(
                count,
            ) + " records evicted"@
            &&& !high ==> notices.len() == 1
            &&& high ==> notices.len() == 2 && notices[0].kind == EventKind::DiskUsageHigh
            &&& high ==> exists|percent: nat|
                percent * policy.max_disk_bytes <= 100 * disk_bytes < (percent + 1)
                    * policy.max_disk_bytes && notices[0].message
                    == "Fjall disk usage exceeds threshold ("@ + #[trigger] decimal(percent)
                    + "% of maximum)"@
        }),
{
    let max = policy.max_disk_bytes as int;
    if disk_bytes > policy.max_disk_bytes && max > 0 {
        let percent = (disk_bytes as nat * 100) / (policy.max_disk_bytes as nat);
        let whole = 100 * disk_bytes;
        vstd::arithmetic::div_mod::lemma_fundamental_div_mod(whole, max);
        vstd::arithmetic::div_mod::lemma_mod_bound(whole, max);
        assert(percent as int == whole / max);
        assert(percent * max <= whole < (percent + 1) * max) by (nonlinear_arith)
            requires
                whole == max * (whole / max) + whole % max,
                0 <= whole % max < max,
                percent as int == whole / max,
        ;
        let notices = retention_notices(policy, disk_bytes, count);
        assert(notices[0].message == "Fjall disk usage exceeds threshold ("@ + decimal(percent)
            + "% of maximum)"@);
    }
}

} // verus!
