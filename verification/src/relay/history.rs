//! The relay over time: what holds of the store after any row of changes.
use crate::config::RetentionPolicy;
use crate::relay::egress::{
    batch_is_queued, first, in_batch, is_delivered, is_rejected, law_delivery_drops_the_batch,
    law_no_record_is_lost, law_rejected_is_not_retried, ops_after, readable, Delivery,
};
use crate::relay::ingest::{all_below, message_record};
use crate::relay::record::{key_of, law_key_round_trip, seq_of, Record, RecordView};
use crate::relay::retention::{
    evictions, evicts_key, is_evicted, law_retention_drops_only_evicted,
};
use crate::relay::store::{Contents, StoreOpView};
use vstd::prelude::*;

verus! {

/// One thing that the relay does to the store.
pub enum Change {
    /// A message is committed.
    Commit(RecordView),
    /// A batch is settled by what became of it.
    Settle { batch: Seq<RecordView>, delivery: Delivery },
    /// A retention pass is made over the queue.
    Retain { policy: RetentionPolicy, now_ns: u64, disk_bytes: u64, records: Seq<RecordView> },
}

impl Change {
    /// The operations that the change is made of.
    pub open spec fn ops(self) -> Seq<StoreOpView> {
        match self {
            Change::Commit(r) => seq![StoreOpView::Insert(r)],
            Change::Settle { batch, delivery } => ops_after(batch, delivery),
            Change::Retain { policy, now_ns, disk_bytes, records } => evictions(
                policy,
                now_ns,
                disk_bytes,
                records,
                records.len(),
            ),
        }
    }

    /// Whether the relay makes such a change to a store with these contents: it
    /// commits under a key that is free, and settles and evicts what is queued.
    pub open spec fn fits(self, contents: Contents) -> bool {
        match self {
            Change::Commit(r) => !contents.queue.contains_key(r.key) && !contents.dead.contains_key(
                r.key,
            ),
            Change::Settle { batch, .. } => batch_is_queued(contents, batch),
            Change::Retain { records, .. } => batch_is_queued(contents, records),
        }
    }

    /// Whether the change tells of the delivery of `r`.
    pub open spec fn delivers(self, r: RecordView) -> bool {
        self matches Change::Settle { batch, delivery } && is_delivered(delivery) && batch.contains(
            r,
        )
    }

    /// Whether the change tells of a batch with a record of this key.
    pub open spec fn tries(self, key: Seq<u8>) -> bool {
        self matches Change::Settle { batch, .. } && in_batch(batch, key)
    }

    /// Whether the change evicts `r`, for its age or for its space.
    pub open spec fn evicts(self, r: RecordView) -> bool {
        self matches Change::Retain { policy, now_ns, disk_bytes, records } && exists|k: int|
            0 <= k < records.len() && is_evicted(policy, now_ns, disk_bytes, records, k)
                && #[trigger] records[k] == r
    }
}

/// What the store holds after `changes`, having been empty.
pub open spec fn contents_after(changes: Seq<Change>) -> Contents
    decreases changes.len(),
{
    if changes.len() == 0 {
        Contents { queue: Map::empty(), dead: Map::empty() }
    } else {
        contents_after(changes.drop_last()).apply_all(changes.last().ops())
    }
}

/// Whether each of `changes` is one that the relay makes where the earlier ones
/// have been made.
pub open spec fn is_history(changes: Seq<Change>) -> bool
    decreases changes.len(),
{
    changes.len() > 0 ==> {
        let earlier = changes.drop_last();
        is_history(earlier) && changes.last().fits(contents_after(earlier))
    }
}

/// Whether `r` lies in the queue as it was committed.
pub open spec fn is_queued(contents: Contents, r: RecordView) -> bool {
    contents.queue.contains_key(r.key) && contents.queue[r.key] == r.value
}

/// Whether `r` lies among the dead letters as it was committed.
pub open spec fn is_dead(contents: Contents, r: RecordView) -> bool {
    contents.dead.contains_key(r.key) && contents.dead[r.key] == r.value
}

/// Whether each entry of a scan that could be read is a record of the queue.
pub open spec fn is_scan(contents: Contents, scan: Seq<Option<Record>>) -> bool {
    forall|i: int|
        0 <= i < scan.len() ==> ((#[trigger] scan[i]) matches Some(r) ==> is_queued(contents, r@))
}

/// What ingest commits fits: the next number's key is free.
pub proof fn law_commits_fit(contents: Contents, seq: u64, data: Seq<u8>, now_ns: u128)
    requires
        all_below(contents, seq),
    ensures
        Change::Commit(message_record(seq, data, now_ns)).fits(contents),
{
    law_key_round_trip(seq);
}

/// What is collected from a scan of the queue fits: a batch of it can be settled,
/// whatever became of it.
pub proof fn law_batches_fit(
    contents: Contents,
    scan: Seq<Option<Record>>,
    batch_size: nat,
    delivery: Delivery,
)
    requires
        is_scan(contents, scan),
    ensures
        (Change::Settle { batch: readable(first(scan, batch_size)), delivery }).fits(contents),
{
    let front = first(scan, batch_size);
    assert(is_scan(contents, front)) by {
        assert forall|i: int| 0 <= i < front.len() implies ((#[trigger] front[i]) matches Some(r)
            ==> is_queued(contents, r@)) by {
            assert(front[i] == scan[i]);
        }
    }
    lemma_readable_is_queued(contents, front);
}

/// A retention pass over what a scan of the queue could read fits.
pub proof fn law_passes_fit(
    contents: Contents,
    scan: Seq<Option<Record>>,
    policy: RetentionPolicy,
    now_ns: u64,
    disk_bytes: u64,
)
    requires
        is_scan(contents, scan),
    ensures
        (Change::Retain { policy, now_ns, disk_bytes, records: readable(scan) }).fits(contents),
{
    lemma_readable_is_queued(contents, scan);
}

proof fn lemma_readable_is_queued(contents: Contents, scan: Seq<Option<Record>>)
    requires
        is_scan(contents, scan),
    ensures
        batch_is_queued(contents, readable(scan)),
    decreases scan.len(),
{
    if scan.len() > 0 {
        let rest = scan.drop_last();
        assert forall|i: int| 0 <= i < rest.len() implies ((#[trigger] rest[i]) matches Some(r)
            ==> is_queued(contents, r@)) by {
            assert(rest[i] == scan[i]);
        }
        lemma_readable_is_queued(contents, rest);
        assert(scan[scan.len() - 1] == scan.last());
    }
}

proof fn lemma_in_batch(contents: Contents, batch: Seq<RecordView>, r: RecordView)
    requires
        batch_is_queued(contents, batch),
        is_queued(contents, r),
    ensures
        in_batch(batch, r.key) <==> batch.contains(r),
{
    if in_batch(batch, r.key) {
        let i = choose|i: int| 0 <= i < batch.len() && #[trigger] batch[i].key == r.key;
        assert(batch[i] == r);
    }
    if batch.contains(r) {
        let i = choose|i: int| 0 <= i < batch.len() && batch[i] == r;
        assert(batch[i].key == r.key);
    }
}

/// What one change makes of a record that is queued.
proof fn lemma_queued_step(contents: Contents, change: Change, r: RecordView)
    requires
        change.fits(contents),
        is_queued(contents, r),
    ensures
        ({
            let after = contents.apply_all(change.ops());
            is_queued(after, r) || is_dead(after, r) || change.delivers(r) || change.evicts(r)
        }),
{
    match change {
        Change::Commit(other) => {
            lemma_commit(contents, other);
        },
        Change::Settle { batch, delivery } => {
            law_no_record_is_lost(contents, batch, delivery, r.key);
            lemma_in_batch(contents, batch, r);
        },
        Change::Retain { policy, now_ns, disk_bytes, records } => {
            law_retention_drops_only_evicted(contents, policy, now_ns, disk_bytes, records, r.key);
            if evicts_key(policy, now_ns, disk_bytes, records, records.len(), r.key) {
                let k = choose|k: int|
                    0 <= k < records.len() && is_evicted(policy, now_ns, disk_bytes, records, k)
                        && #[trigger] records[k].key == r.key;
                assert(records[k] == r);
            }
        },
    }
}

/// A commit adds one record to the queue.
proof fn lemma_commit(contents: Contents, r: RecordView)
    ensures
        contents.apply_all(Change::Commit(r).ops()) == contents.apply(StoreOpView::Insert(r)),
{
    let ops = seq![StoreOpView::Insert(r)];
    assert(ops.drop_last() =~= seq![]);
    reveal_with_fuel(Contents::apply_all, 2);
}

/// What one change makes of the key of a dead letter.
proof fn lemma_dead_step(contents: Contents, change: Change, key: Seq<u8>)
    requires
        change.fits(contents),
        contents.dead.contains_key(key),
        !contents.queue.contains_key(key),
    ensures
        ({
            let after = contents.apply_all(change.ops());
            &&& after.dead.contains_key(key)
            &&& after.dead[key] == contents.dead[key]
            &&& !after.queue.contains_key(key)
        }),
{
    match change {
        Change::Commit(other) => {
            lemma_commit(contents, other);
        },
        Change::Settle { batch, delivery } => {
            law_no_record_is_lost(contents, batch, delivery, key);
            lemma_settle_adds_nothing(contents, batch, delivery, key);
        },
        Change::Retain { policy, now_ns, disk_bytes, records } => {
            law_retention_drops_only_evicted(contents, policy, now_ns, disk_bytes, records, key);
        },
    }
}

/// Settling a batch puts nothing into the queue, and among the dead letters only
/// what was queued, which then is queued no longer.
proof fn lemma_settle_adds_nothing(
    contents: Contents,
    batch: Seq<RecordView>,
    delivery: Delivery,
    key: Seq<u8>,
)
    requires
        batch_is_queued(contents, batch),
    ensures
        ({
            let after = contents.apply_all(ops_after(batch, delivery));
            &&& after.queue.contains_key(key) ==> contents.queue.contains_key(key)
                && after.queue[key] == contents.queue[key]
            &&& after.dead.contains_key(key) && !contents.dead.contains_key(key)
                ==> contents.queue.contains_key(key) && after.dead[key] == contents.queue[key]
                && !after.queue.contains_key(key)
        }),
    decreases batch.len(),
{
    let after = contents.apply_all(ops_after(batch, delivery));
    if is_delivered(delivery) {
        law_delivery_drops_the_batch(contents, batch, delivery);
    } else if is_rejected(delivery) && batch.len() > 0 {
        let rest = batch.drop_last();
        let ops = ops_after(batch, delivery);
        assert forall|i: int| 0 <= i < rest.len() implies contents.queue.contains_key(
            (#[trigger] rest[i]).key,
        ) && contents.queue[rest[i].key] == rest[i].value by {
            assert(rest[i] == batch[i]);
        }
        lemma_settle_adds_nothing(contents, rest, delivery, key);
        assert(ops.drop_last() =~= ops_after(rest, delivery));
        assert(batch[batch.len() - 1] == batch.last());
        assert(ops.last() == StoreOpView::DeadLetter(batch.last()));
    }
}

/// Ingest does not get in the way: a batch that could be settled, and a retention
/// pass that could be made, can still be after another message is committed.
pub proof fn law_commits_do_not_interfere(contents: Contents, change: Change, r: RecordView)
    requires
        change.fits(contents),
        !(change is Commit),
        Change::Commit(r).fits(contents),
    ensures
        change.fits(contents.apply_all(Change::Commit(r).ops())),
{
    lemma_commit(contents, r);
}

/// The contents after messages are committed, one after the other.
pub open spec fn with_commits(contents: Contents, messages: Seq<RecordView>) -> Contents
    decreases messages.len(),
{
    if messages.len() == 0 {
        contents
    } else {
        with_commits(contents, messages.drop_last()).apply_all(
            Change::Commit(messages.last()).ops(),
        )
    }
}

/// Whether each of `messages` can be committed behind the earlier ones.
pub open spec fn commits_fit(contents: Contents, messages: Seq<RecordView>) -> bool
    decreases messages.len(),
{
    messages.len() > 0 ==> {
        let earlier = messages.drop_last();
        commits_fit(contents, earlier) && Change::Commit(messages.last()).fits(
            with_commits(contents, earlier),
        )
    }
}

/// However many messages are committed between a scan and what follows from it, the
/// batch can still be settled and the pass still be made.
pub proof fn law_scans_stay_good(contents: Contents, change: Change, messages: Seq<RecordView>)
    requires
        change.fits(contents),
        !(change is Commit),
        commits_fit(contents, messages),
    ensures
        change.fits(with_commits(contents, messages)),
    decreases messages.len(),
{
    if messages.len() > 0 {
        let earlier = messages.drop_last();
        law_scans_stay_good(contents, change, earlier);
        law_commits_do_not_interfere(with_commits(contents, earlier), change, messages.last());
    }
}

/// Settling a batch and making a retention pass keep the numbers from `seq` on free.
pub proof fn law_numbers_stay_free(contents: Contents, change: Change, seq: u64)
    requires
        all_below(contents, seq),
        change.fits(contents),
        !(change is Commit),
    ensures
        all_below(contents.apply_all(change.ops()), seq),
{
    let after = contents.apply_all(change.ops());
    assert forall|key: Seq<u8>|
        after.queue.contains_key(key) || after.dead.contains_key(key) implies seq_of(key) is Some
        && seq_of(key)->0 < seq by {
        match change {
            Change::Settle { batch, delivery } => {
                lemma_settle_adds_nothing(contents, batch, delivery, key);
            },
            Change::Retain { policy, now_ns, disk_bytes, records } => {
                law_retention_drops_only_evicted(
                    contents,
                    policy,
                    now_ns,
                    disk_bytes,
                    records,
                    key,
                );
            },
            Change::Commit(_) => {},
        }
    }
}

/// How many of `changes` are commits.
pub open spec fn commits(changes: Seq<Change>) -> nat
    decreases changes.len(),
{
    if changes.len() == 0 {
        0
    } else {
        commits(changes.drop_last()) + if changes.last() is Commit {
            1nat
        } else {
            0nat
        }
    }
}

/// Whether `changes` is what a relay makes that numbers its messages from zero: each
/// commit is under the key of the next number, and whatever else is done fits.
pub open spec fn is_numbered(changes: Seq<Change>) -> bool
    decreases changes.len(),
{
    changes.len() > 0 ==> {
        let earlier = changes.drop_last();
        is_numbered(earlier) && match changes.last() {
            Change::Commit(r) => r.key == key_of(commits(earlier) as u64),
            other => other.fits(contents_after(earlier)),
        }
    }
}

/// Numbering is enough for the commits to fit: a relay that numbers its messages one
/// by one never commits under a key that is taken, and the numbers from the next one
/// on are always free, until they run out.
pub proof fn law_numbered_is_history(changes: Seq<Change>)
    requires
        is_numbered(changes),
        commits(changes) <= u64::MAX,
    ensures
        is_history(changes),
        all_below(contents_after(changes), commits(changes) as u64),
    decreases changes.len(),
{
    if changes.len() > 0 {
        let earlier = changes.drop_last();
        let before = contents_after(earlier);
        let seq = commits(earlier) as u64;
        law_numbered_is_history(earlier);
        law_key_round_trip(seq);
        match changes.last() {
            Change::Commit(r) => {
                lemma_commit(before, r);
            },
            other => {
                law_numbers_stay_free(before, other, seq);
            },
        }
    }
}

/// No key is both in the queue and among the dead letters.
pub proof fn law_queue_and_dead_letters_are_apart(changes: Seq<Change>, key: Seq<u8>)
    requires
        is_history(changes),
    ensures
        ({
            let contents = contents_after(changes);
            !(contents.queue.contains_key(key) && contents.dead.contains_key(key))
        }),
    decreases changes.len(),
{
    if changes.len() > 0 {
        let before = contents_after(changes.drop_last());
        law_queue_and_dead_letters_are_apart(changes.drop_last(), key);
        if before.dead.contains_key(key) {
            lemma_dead_step(before, changes.last(), key);
        } else {
            match changes.last() {
                Change::Commit(r) => {
                    lemma_commit(before, r);
                },
                Change::Settle { batch, delivery } => {
                    lemma_settle_adds_nothing(before, batch, delivery, key);
                },
                Change::Retain { policy, now_ns, disk_bytes, records } => {
                    law_retention_drops_only_evicted(
                        before,
                        policy,
                        now_ns,
                        disk_bytes,
                        records,
                        key,
                    );
                },
            }
        }
    }
}

/// No message is lost: whatever the relay has done since it committed a message,
/// the message still waits in the queue, or lies among the dead letters, or was
/// delivered to the sink, or was evicted by retention.
pub proof fn law_every_message_is_accounted_for(changes: Seq<Change>, i: int, r: RecordView)
    requires
        is_history(changes),
        0 <= i < changes.len(),
        changes[i] == Change::Commit(r),
    ensures
        ({
            ||| is_queued(contents_after(changes), r)
            ||| is_dead(contents_after(changes), r)
            ||| exists|j: int| i < j < changes.len() && (#[trigger] changes[j]).delivers(r)
            ||| exists|j: int| i < j < changes.len() && (#[trigger] changes[j]).evicts(r)
        }),
    decreases changes.len(),
{
    let rest = changes.drop_last();
    let before = contents_after(rest);
    let last = changes.len() - 1;
    if i == last {
        lemma_commit(before, r);
    } else {
        assert(rest[i] == changes[i]);
        law_every_message_is_accounted_for(rest, i, r);
        law_queue_and_dead_letters_are_apart(rest, r.key);
        if is_queued(before, r) {
            lemma_queued_step(before, changes.last(), r);
            assert(changes[last] == changes.last());
        } else if is_dead(before, r) {
            lemma_dead_step(before, changes.last(), r.key);
        } else if exists|j: int| i < j < rest.len() && (#[trigger] rest[j]).delivers(r) {
            let j = choose|j: int| i < j < rest.len() && (#[trigger] rest[j]).delivers(r);
            assert(changes[j].delivers(r));
        } else {
            let j = choose|j: int| i < j < rest.len() && (#[trigger] rest[j]).evicts(r);
            assert(changes[j].evicts(r));
        }
    }
}

/// Nothing is invented: whatever waits in the queue or lies among the dead letters
/// was committed, and is as it was committed.
pub proof fn law_store_holds_only_messages(changes: Seq<Change>, r: RecordView)
    requires
        is_history(changes),
        is_queued(contents_after(changes), r) || is_dead(contents_after(changes), r),
    ensures
        exists|i: int| 0 <= i < changes.len() && #[trigger] changes[i] == Change::Commit(r),
    decreases changes.len(),
{
    if changes.len() > 0 {
        let rest = changes.drop_last();
        let before = contents_after(rest);
        let last = changes.len() - 1;
        law_queue_and_dead_letters_are_apart(rest, r.key);
        match changes.last() {
            Change::Commit(other) => {
                lemma_commit(before, other);
                if other == r {
                    assert(changes[last] == Change::Commit(r));
                }
            },
            Change::Settle { batch, delivery } => {
                lemma_settle_adds_nothing(before, batch, delivery, r.key);
                if before.dead.contains_key(r.key) {
                    lemma_dead_step(before, changes.last(), r.key);
                }
            },
            Change::Retain { policy, now_ns, disk_bytes, records } => {
                law_retention_drops_only_evicted(
                    before,
                    policy,
                    now_ns,
                    disk_bytes,
                    records,
                    r.key,
                );
            },
        }
        if !(changes.last() == Change::Commit(r)) {
            assert(is_queued(before, r) || is_dead(before, r));
            law_store_holds_only_messages(rest, r);
            let i = choose|i: int| 0 <= i < rest.len() && #[trigger] rest[i] == Change::Commit(r);
            assert(changes[i] == Change::Commit(r));
        }
    }
}

proof fn lemma_rejected_is_dead(
    changes: Seq<Change>,
    batch: Seq<RecordView>,
    delivery: Delivery,
    r: RecordView,
)
    requires
        is_history(changes),
        changes.len() > 0,
        changes.last() == (Change::Settle { batch, delivery }),
        is_rejected(delivery),
        batch.contains(r),
    ensures
        is_dead(contents_after(changes), r),
{
    let before = contents_after(changes.drop_last());
    let k = choose|k: int| 0 <= k < batch.len() && batch[k] == r;
    law_rejected_is_not_retried(before, batch, delivery, k);
    assert(changes.last().ops() == ops_after(batch, delivery));
}

proof fn lemma_only_queued_is_tried(contents: Contents, change: Change, key: Seq<u8>)
    requires
        change.fits(contents),
        !contents.queue.contains_key(key),
    ensures
        !change.tries(key),
{
}

proof fn lemma_dead_letter_stays(changes: Seq<Change>, r: RecordView)
    requires
        is_history(changes),
        changes.len() > 0,
        is_dead(contents_after(changes.drop_last()), r),
    ensures
        is_dead(contents_after(changes), r),
        !changes.last().tries(r.key),
{
    let rest = changes.drop_last();
    law_queue_and_dead_letters_are_apart(rest, r.key);
    lemma_dead_step(contents_after(rest), changes.last(), r.key);
    lemma_only_queued_is_tried(contents_after(rest), changes.last(), r.key);
}

/// Dead letters are preserved and not retried: a record that the sink has rejected
/// stays among the dead letters from then on, and no later change is about a batch
/// with it.
pub proof fn law_dead_letters_are_kept(
    changes: Seq<Change>,
    i: int,
    j: int,
    batch: Seq<RecordView>,
    delivery: Delivery,
    r: RecordView,
)
    requires
        is_history(changes),
        0 <= i < changes.len(),
        changes[i] == (Change::Settle { batch, delivery }),
        is_rejected(delivery),
        batch.contains(r),
    ensures
        is_dead(contents_after(changes), r),
        i < j < changes.len() ==> !changes[j].tries(r.key),
    decreases changes.len(),
{
    let last = changes.len() - 1;
    if i == last {
        lemma_rejected_is_dead(changes, batch, delivery, r);
    } else {
        let rest = changes.drop_last();
            assert(rest[i] == changes[i]);
        law_dead_letters_are_kept(rest, i, j, batch, delivery, r);
        lemma_dead_letter_stays(changes, r);
        if i < j < last {
            assert(rest[j] == changes[j]);
        }
    }
}

} // verus!
