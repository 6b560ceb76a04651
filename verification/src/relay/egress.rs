//! Egress: from the queue to the sink.
use crate::audit::{notice, notice_views, EventKind, Notice, NoticeView};
use crate::bytes::{be_value, lex_before, push_all};
use crate::config::ForwardPolicy;
use crate::relay::ingest::{message_record, timestamp};
use crate::relay::record::{
    decode_envelope, decode_key, key_of, law_envelope_opening, law_envelope_round_trip,
    law_key_round_trip, open_envelope, record_views, seq_of, Record, RecordView,
};
use crate::relay::store::{op_views, Contents, StoreOp, StoreOpView};
use crate::text::{decimal, push_decimal};
use rand::RngExt;
use vstd::arithmetic::power2::{lemma_pow2_pos, lemma_pow2_unfold, pow2};
use vstd::prelude::*;

verus! {

/// The rest after a delivered batch.
pub const DELIVERED_PAUSE_MS: u64 = 1;

/// The rest after a rejected batch.
pub const REJECTED_PAUSE_MS: u64 = 500;

/// The first `limit` entries of `s`, or all of them where there are fewer.
pub open spec fn first<T>(s: Seq<T>, limit: nat) -> Seq<T> {
    if limit < s.len() {
        s.take(limit as int)
    } else {
        s
    }
}

/// The records among the entries of a scan, in order; an entry that could not be
/// read holds none.
pub open spec fn readable(scan: Seq<Option<Record>>) -> Seq<RecordView>
    decreases scan.len(),
{
    if scan.len() == 0 {
        seq![]
    } else {
        let rest = readable(scan.drop_last());
        match scan.last() {
            Some(r) => rest.push(r@),
            None => rest,
        }
    }
}

/// The batch that the oldest entries of the queue make: the first `batch_size`
/// entries, without those that could not be read.
pub fn collect_batch(scan: Vec<Option<Record>>, batch_size: usize) -> (batch: Vec<Record>)
    ensures
        record_views(batch@) == readable(first(scan@, batch_size as nat)),
{
    let mut batch: Vec<Record> = Vec::new();
    let mut seen: usize = 0;
    let ghost all = scan@;
    for entry in it: scan
        invariant
            it.seq() == all,
            seen == if it.index() < batch_size {
                it.index()
            } else {
                batch_size as int
            },
            record_views(batch@) == readable(all.take(seen as int)),
    {
        if seen < batch_size {
            assert(all.take(seen + 1).drop_last() =~= all.take(seen as int));
            seen = seen + 1;
            if let Some(r) = entry {
                batch.push(r);
            }
        }
        assert(record_views(batch@) =~= readable(all.take(seen as int)));
    }
    assert(all.take(seen as int) =~= first(all, batch_size as nat));
    batch
}

/// What a record carries: the payload of its envelope, or the whole value where it
/// is no envelope.
pub open spec fn payload_of(value: Seq<u8>) -> Seq<u8> {
    match open_envelope(value) {
        Some((ts, payload)) => payload,
        None => value,
    }
}

/// `payload` as whole lines: with a line feed behind it, unless it is empty or has
/// one already.
pub open spec fn lines_of(payload: Seq<u8>) -> Seq<u8> {
    if payload.len() == 0 || payload.last() == 0x0a {
        payload
    } else {
        payload.push(0x0a)
    }
}

/// The request body for a batch: the lines of its payloads, in order.
pub open spec fn body_of(batch: Seq<RecordView>) -> Seq<u8>
    decreases batch.len(),
{
    if batch.len() == 0 {
        seq![]
    } else {
        body_of(batch.drop_last()) + lines_of(payload_of(batch.last().value))
    }
}

/// The request body for `batch`.
pub fn batch_body(batch: &Vec<Record>) -> (body: Vec<u8>)
    ensures
        body@ == body_of(record_views(batch@)),
{
    let mut body: Vec<u8> = Vec::new();
    let mut i: usize = 0;
    let ghost views = record_views(batch@);
    while i < batch.len()
        invariant
            i <= batch@.len(),
            views == record_views(batch@),
            body@ == body_of(views.take(i as int)),
        decreases batch@.len() - i,
    {
        let value = batch[i].value.as_slice();
        let payload = match decode_envelope(value) {
            Some((_, payload)) => payload,
            None => value,
        };
        push_all(&mut body, payload);
        if payload.len() > 0 && payload[payload.len() - 1] != 0x0a {
            body.push(0x0a);
        }
        proof {
            assert(views.take(i + 1).drop_last() =~= views.take(i as int));
            assert(payload@ == payload_of(views[i as int].value));
            assert(body@ =~= body_of(views.take(i + 1)));
        }
        i = i + 1;
    }
    assert(views.take(i as int) =~= views);
    body
}

/// What the forwarder does about a batch that it has collected.
#[derive(Debug)]
pub enum EgressPlan {
    /// There is nothing to forward: look again later.
    Idle { wait_ms: u64 },
    /// Post this body to the sink.
    Post { body: Vec<u8> },
}

/// Decides what to do about `batch`.
pub fn plan(policy: &ForwardPolicy, batch: &Vec<Record>) -> (plan: EgressPlan)
    ensures
        batch@.len() == 0 ==> plan == (EgressPlan::Idle { wait_ms: policy.poll_interval_ms }),
        batch@.len() > 0 ==> (plan matches EgressPlan::Post { body } && body@ == body_of(
            record_views(batch@),
        )),
{
    if batch.len() == 0 {
        EgressPlan::Idle { wait_ms: policy.poll_interval_ms }
    } else {
        EgressPlan::Post { body: batch_body(batch) }
    }
}

/// What became of a posted batch.
#[derive(Debug)]
pub enum Delivery {
    /// The sink has answered.
    Answered { status: u16, latency_ms: u128 },
    /// The TLS handshake has failed.
    TlsFailed { reason: String },
    /// No answer came, for another reason.
    NoAnswer { reason: String },
}

/// Whether the batch has been delivered: the sink has answered with a 2xx status.
pub open spec fn is_delivered(delivery: Delivery) -> bool {
    delivery matches Delivery::Answered { status, .. } && 200 <= status <= 299
}

/// Whether the batch has been rejected for good: the sink has answered 400.
pub open spec fn is_rejected(delivery: Delivery) -> bool {
    delivery matches Delivery::Answered { status, .. } && status == 400
}

/// Whether the batch is to be tried again.
pub open spec fn is_failed(delivery: Delivery) -> bool {
    !is_delivered(delivery) && !is_rejected(delivery)
}

/// What a delivery means for its batch.
#[derive(Clone, Copy, Debug, PartialEq, Eq, Structural)]
pub enum Verdict {
    /// The batch is with the sink.
    Delivered,
    /// The sink will never take the batch.
    Rejected,
    /// The batch is to be tried again.
    Failed,
}

impl Delivery {
    /// What this delivery means for its batch.
    pub fn verdict(&self) -> (v: Verdict)
        ensures
            v is Delivered <==> is_delivered(*self),
            v is Rejected <==> is_rejected(*self),
            v is Failed <==> is_failed(*self),
    {
        match self {
            Delivery::Answered { status, .. } => if 200 <= *status && *status <= 299 {
                Verdict::Delivered
            } else if *status == 400 {
                Verdict::Rejected
            } else {
                Verdict::Failed
            },
            _ => Verdict::Failed,
        }
    }
}

/// Why a delivery has failed.
pub open spec fn failure_reason(delivery: Delivery) -> Seq<char> {
    match delivery {
        Delivery::Answered { status, .. } => "HTTP "@ + decimal(status as nat),
        Delivery::TlsFailed { reason } => reason@,
        Delivery::NoAnswer { reason } => reason@,
    }
}

/// The forwarder between two requests.
#[derive(Clone, Copy, Debug, PartialEq, Eq, Structural)]
pub struct EgressState {
    /// The wait that the next failure starts from.
    pub backoff_ms: u64,
    /// The failures since the last delivered batch.
    pub failures: u64,
    /// The last sequence number of the last delivered batch.
    pub high_water: Option<u64>,
}

/// The forwarder as it starts.
pub open spec fn initial_state(policy: ForwardPolicy) -> EgressState {
    EgressState { backoff_ms: policy.base_backoff_ms, failures: 0, high_water: None }
}

/// Twice the wait, up to the bound.
pub open spec fn next_backoff(policy: ForwardPolicy, backoff_ms: u64) -> u64 {
    if 2 * backoff_ms <= policy.max_backoff_ms {
        (2 * backoff_ms) as u64
    } else {
        policy.max_backoff_ms
    }
}

/// One more failure, counted as far as the counter goes.
pub open spec fn next_failures(failures: u64) -> u64 {
    if failures < u64::MAX {
        (failures + 1) as u64
    } else {
        u64::MAX
    }
}

/// `a + b`, as far as the machine goes.
pub open spec fn capped_sum(a: u64, b: u64) -> u64 {
    if a + b <= u64::MAX {
        (a + b) as u64
    } else {
        u64::MAX
    }
}

/// The forwarder after `delivery` of `batch`.
pub open spec fn state_after(
    state: EgressState,
    policy: ForwardPolicy,
    batch: Seq<RecordView>,
    delivery: Delivery,
) -> EgressState {
    if is_delivered(delivery) {
        EgressState {
            backoff_ms: policy.base_backoff_ms,
            failures: 0,
            high_water: match seq_of(batch.last().key) {
                Some(seq) => Some(seq),
                None => state.high_water,
            },
        }
    } else if is_rejected(delivery) {
        state
    } else {
        EgressState {
            backoff_ms: next_backoff(policy, state.backoff_ms),
            failures: next_failures(state.failures),
            high_water: state.high_water,
        }
    }
}

/// The wait after `delivery`, where a failed one adds `jitter_ms` to the backoff.
pub open spec fn wait_after(state: EgressState, delivery: Delivery, jitter_ms: u64) -> u64 {
    if is_delivered(delivery) {
        1
    } else if is_rejected(delivery) {
        500
    } else {
        capped_sum(state.backoff_ms, jitter_ms)
    }
}

/// What the store is to do after `delivery`: drop a delivered batch, set a rejected
/// one aside, and leave any other one where it is.
pub open spec fn ops_after(batch: Seq<RecordView>, delivery: Delivery) -> Seq<StoreOpView> {
    if is_delivered(delivery) {
        batch.map_values(|r: RecordView| StoreOpView::Remove(r.key))
    } else if is_rejected(delivery) {
        batch.map_values(|r: RecordView| StoreOpView::DeadLetter(r))
    } else {
        seq![]
    }
}

/// The sequence number of a key, as text.
pub open spec fn seq_text(key: Seq<u8>) -> Seq<char> {
    match seq_of(key) {
        Some(seq) => decimal(seq as nat),
        None => "unknown"@,
    }
}

/// What the audit trail is told about `delivery`.
pub open spec fn notices_after(
    state: EgressState,
    policy: ForwardPolicy,
    batch: Seq<RecordView>,
    delivery: Delivery,
    jitter_ms: u64,
) -> Seq<NoticeView> {
    if is_delivered(delivery) {
        let delivered = NoticeView {
            kind: EventKind::BatchDelivered,
            message: "Batch delivered; count="@ + decimal(batch.len()) + "; latency="@ + decimal(
                delivery->Answered_latency_ms as nat,
            ) + "ms"@,
        };
        if state.failures > 0 {
            seq![
                delivered,
                NoticeView {
                    kind: EventKind::ForwardingResumed,
                    message: "Network connectivity restored; forwarding resumed"@,
                },
            ]
        } else {
            seq![delivered]
        }
    } else if is_rejected(delivery) {
        seq![
            NoticeView {
                kind: EventKind::BatchDeadLettered,
                message: "Dead-letter: batch rejected by server (HTTP 400); seq_start="@ + seq_text(
                    batch[0].key,
                ) + "; seq_end="@ + seq_text(batch.last().key),
            },
        ]
    } else {
        let count = next_failures(state.failures);
        let retry = "; retrying in "@ + decimal(wait_after(state, delivery, jitter_ms) as nat)
            + "ms"@;
        let failed = if count <= policy.failure_threshold {
            NoticeView {
                kind: EventKind::DeliveryFailed,
                message: "Batch delivery failed; attempt="@ + decimal(count as nat) + "; reason="@
                    + failure_reason(delivery) + retry,
            }
        } else {
            NoticeView {
                kind: EventKind::DeliveryFailing,
                message: "Consecutive delivery failures exceed threshold; count="@ + decimal(
                    count as nat,
                ) + retry,
            }
        };
        match delivery {
            Delivery::TlsFailed { reason } => seq![
                NoticeView {
                    kind: EventKind::TlsHandshakeFailed,
                    message: "TLS handshake failed; reason="@ + reason@,
                },
                failed,
            ],
            _ => seq![failed],
        }
    }
}

/// What follows from a delivery.
#[derive(Debug)]
pub struct EgressStep {
    /// The changes to the store, in order.
    pub ops: Vec<StoreOp>,
    pub notices: Vec<Notice>,
    /// The wait before the next batch.
    pub wait_ms: u64,
}

/// Appends the sequence number of `key` to `text`.
fn push_seq_text(text: &mut String, key: &[u8])
    ensures
        final(text)@ == old(text)@ + seq_text(key@),
{
    match decode_key(key) {
        Some(seq) => push_decimal(text, seq as u128),
        None => text.append("unknown"),
    }
}

/// The changes that drop a batch.
fn removals(batch: Vec<Record>) -> (ops: Vec<StoreOp>)
    ensures
        op_views(ops@) == record_views(batch@).map_values(
            |r: RecordView| StoreOpView::Remove(r.key),
        ),
{
    let ghost views = record_views(batch@);
    let mut ops: Vec<StoreOp> = Vec::new();
    for record in it: batch
        invariant
            views == record_views(it.seq()),
            op_views(ops@) == views.take(it.index()).map_values(
                |r: RecordView| StoreOpView::Remove(r.key),
            ),
    {
        let ghost done = ops@;
        let ghost view = record@;
        ops.push(StoreOp::Remove(record.key));
        proof {
            let i = it.index();
            assert(views.take(i + 1) =~= views.take(i).push(view));
            assert(op_views(ops@) =~= op_views(done).push(StoreOpView::Remove(view.key)));
            assert(op_views(ops@) =~= views.take(i + 1).map_values(
                |r: RecordView| StoreOpView::Remove(r.key),
            ));
        }
    }
    assert(views.take(views.len() as int) =~= views);
    ops
}

/// The changes that set a batch aside.
fn dead_letters(batch: Vec<Record>) -> (ops: Vec<StoreOp>)
    ensures
        op_views(ops@) == record_views(batch@).map_values(
            |r: RecordView| StoreOpView::DeadLetter(r),
        ),
{
    let ghost views = record_views(batch@);
    let mut ops: Vec<StoreOp> = Vec::new();
    for record in it: batch
        invariant
            views == record_views(it.seq()),
            op_views(ops@) == views.take(it.index()).map_values(
                |r: RecordView| StoreOpView::DeadLetter(r),
            ),
    {
        let ghost done = ops@;
        let ghost view = record@;
        ops.push(StoreOp::DeadLetter(record));
        proof {
            let i = it.index();
            assert(views.take(i + 1) =~= views.take(i).push(view));
            assert(op_views(ops@) =~= op_views(done).push(StoreOpView::DeadLetter(view)));
            assert(op_views(ops@) =~= views.take(i + 1).map_values(
                |r: RecordView| StoreOpView::DeadLetter(r),
            ));
        }
    }
    assert(views.take(views.len() as int) =~= views);
    ops
}

/// Draws from `0..max_ms` with the thread's generator, by `rand`'s `rng` and
/// `RngExt::random_range`. The contract claims only that the number drawn is below
/// the bound. `random_range` panics on an empty range, which the bound rules out;
/// `rng` panics where the system cannot seed it, which no argument decides.
#[verifier::external_body]
fn draw_below(max_ms: u64) -> (jitter_ms: u64)
    requires
        max_ms > 0,
    ensures
        jitter_ms < max_ms,
{
    rand::rng().random_range(0..max_ms)
}

impl EgressState {
    /// The forwarder as it starts.
    pub fn new(policy: &ForwardPolicy) -> (state: EgressState)
        ensures
            state == initial_state(*policy),
    {
        EgressState { backoff_ms: policy.base_backoff_ms, failures: 0, high_water: None }
    }

    /// Settles a batch by what became of it; a failed delivery adds `jitter_ms` to
    /// the backoff.
    pub fn settle_with(
        &mut self,
        policy: &ForwardPolicy,
        batch: Vec<Record>,
        delivery: &Delivery,
        jitter_ms: u64,
    ) -> (step: EgressStep)
        requires
            batch@.len() > 0,
        ensures
            *final(self) == state_after(*old(self), *policy, record_views(batch@), *delivery),
            op_views(step.ops@) == ops_after(record_views(batch@), *delivery),
            notice_views(step.notices@) == notices_after(
                *old(self),
                *policy,
                record_views(batch@),
                *delivery,
                jitter_ms,
            ),
            step.wait_ms == wait_after(*old(self), *delivery, jitter_ms),
    {
        let ghost views = record_views(batch@);
        let ghost before = *self;
        let mut notices: Vec<Notice> = Vec::new();
        let count = batch.len();
        let verdict = delivery.verdict();
        if verdict == Verdict::Delivered {
            let latency_ms: u128 = match delivery {
                Delivery::Answered { latency_ms, .. } => *latency_ms,
                _ => 0,
            };
            let mut text = "Batch delivered; count=".to_owned();
            push_decimal(&mut text, count as u128);
            text.append("; latency=");
            push_decimal(&mut text, latency_ms);
            text.append("ms");
            notices.push(notice(EventKind::BatchDelivered, text));
            if self.failures > 0 {
                notices.push(
                    notice(
                        EventKind::ForwardingResumed,
                        "Network connectivity restored; forwarding resumed".to_owned(),
                    ),
                );
            }
            if let Some(seq) = decode_key(batch[count - 1].key.as_slice()) {
                self.high_water = Some(seq);
            }
            self.backoff_ms = policy.base_backoff_ms;
            self.failures = 0;
            assert(notice_views(notices@) =~= notices_after(
                before,
                *policy,
                views,
                *delivery,
                jitter_ms,
            ));
            EgressStep { ops: removals(batch), notices, wait_ms: DELIVERED_PAUSE_MS }
        } else if verdict == Verdict::Rejected {
            let mut text =
                "Dead-letter: batch rejected by server (HTTP 400); seq_start=".to_owned();
            push_seq_text(&mut text, batch[0].key.as_slice());
            text.append("; seq_end=");
            push_seq_text(&mut text, batch[count - 1].key.as_slice());
            notices.push(notice(EventKind::BatchDeadLettered, text));
            assert(notice_views(notices@) =~= notices_after(
                before,
                *policy,
                views,
                *delivery,
                jitter_ms,
            ));
            EgressStep { ops: dead_letters(batch), notices, wait_ms: REJECTED_PAUSE_MS }
        } else {
            let wait_ms = self.backoff_ms.saturating_add(jitter_ms);
            self.failures = self.failures.saturating_add(1);
            self.backoff_ms = if self.backoff_ms <= policy.max_backoff_ms / 2 {
                self.backoff_ms * 2
            } else {
                policy.max_backoff_ms
            };
            let mut retry = "; retrying in ".to_owned();
            push_decimal(&mut retry, wait_ms as u128);
            retry.append("ms");
            if let Delivery::TlsFailed { reason } = delivery {
                let mut text = "TLS handshake failed; reason=".to_owned();
                text.append(reason.as_str());
                notices.push(notice(EventKind::TlsHandshakeFailed, text));
            }
            if self.failures <= policy.failure_threshold {
                let mut text = "Batch delivery failed; attempt=".to_owned();
                push_decimal(&mut text, self.failures as u128);
                text.append("; reason=");
                match delivery {
                    Delivery::Answered { status, .. } => {
                        text.append("HTTP ");
                        push_decimal(&mut text, *status as u128);
                    },
                    Delivery::TlsFailed { reason } => text.append(reason.as_str()),
                    Delivery::NoAnswer { reason } => text.append(reason.as_str()),
                }
                text.append(retry.as_str());
                assert(text@ =~= "Batch delivery failed; attempt="@ + decimal(self.failures as nat)
                    + "; reason="@ + failure_reason(*delivery) + retry@);
                notices.push(notice(EventKind::DeliveryFailed, text));
            } else {
                let mut text =
                    "Consecutive delivery failures exceed threshold; count=".to_owned();
                push_decimal(&mut text, self.failures as u128);
                text.append(retry.as_str());
                notices.push(notice(EventKind::DeliveryFailing, text));
            }
            assert(notice_views(notices@) =~= notices_after(
                before,
                *policy,
                views,
                *delivery,
                jitter_ms,
            ));
            let ops: Vec<StoreOp> = Vec::new();
            assert(op_views(ops@) =~= seq![]);
            EgressStep { ops, notices, wait_ms }
        }
    }

    /// Settles a batch by what became of it; a failed delivery adds a random part
    /// below `max_jitter_ms` to the backoff.
    pub fn settle(
        &mut self,
        policy: &ForwardPolicy,
        batch: Vec<Record>,
        delivery: &Delivery,
    ) -> (step: EgressStep)
        requires
            batch@.len() > 0,
            is_failed(*delivery) ==> policy.max_jitter_ms > 0,
        ensures
            *final(self) == state_after(*old(self), *policy, record_views(batch@), *delivery),
            op_views(step.ops@) == ops_after(record_views(batch@), *delivery),
            exists|jitter_ms: u64|
                #![trigger wait_after(*old(self), *delivery, jitter_ms)]
                {
                    &&& is_failed(*delivery) ==> jitter_ms < policy.max_jitter_ms
                    &&& step.wait_ms == wait_after(*old(self), *delivery, jitter_ms)
                    &&& notice_views(step.notices@) == notices_after(
                        *old(self),
                        *policy,
                        record_views(batch@),
                        *delivery,
                        jitter_ms,
                    )
                },
    {
        let jitter_ms: u64 = if delivery.verdict() == Verdict::Failed {
            draw_below(policy.max_jitter_ms)
        } else {
            0
        };
        self.settle_with(policy, batch, delivery, jitter_ms)
    }
}

/// Whether a record of `batch` has this key.
pub open spec fn in_batch(batch: Seq<RecordView>, key: Seq<u8>) -> bool {
    exists|i: int| 0 <= i < batch.len() && #[trigger] batch[i].key == key
}

/// Whether every record of `batch` is in the queue.
pub open spec fn batch_is_queued(contents: Contents, batch: Seq<RecordView>) -> bool {
    forall|i: int|
        0 <= i < batch.len() ==> contents.queue.contains_key((#[trigger] batch[i]).key)
            && contents.queue[batch[i].key] == batch[i].value
}

proof fn lemma_in_batch_last(batch: Seq<RecordView>, key: Seq<u8>)
    requires
        batch.len() > 0,
    ensures
        in_batch(batch, key) <==> in_batch(batch.drop_last(), key) || batch.last().key == key,
{
    let rest = batch.drop_last();
    if in_batch(batch, key) {
        let i = choose|i: int| 0 <= i < batch.len() && #[trigger] batch[i].key == key;
        if i < rest.len() {
            assert(rest[i].key == key);
        }
    }
    if in_batch(rest, key) {
        let i = choose|i: int| 0 <= i < rest.len() && #[trigger] rest[i].key == key;
        assert(batch[i].key == key);
    }
    assert(batch[batch.len() - 1] == batch.last());
}

proof fn lemma_removals(contents: Contents, batch: Seq<RecordView>)
    ensures
        ({
            let ops = batch.map_values(|r: RecordView| StoreOpView::Remove(r.key));
            let after = contents.apply_all(ops);
            &&& after.dead == contents.dead
            &&& forall|key: Seq<u8>| #[trigger]
                after.queue.contains_key(key) <==> contents.queue.contains_key(key) && !in_batch(
                    batch,
                    key,
                )
            &&& forall|key: Seq<u8>| #[trigger]
                after.queue.contains_key(key) ==> after.queue[key] == contents.queue[key]
        }),
    decreases batch.len(),
{
    let ops = batch.map_values(|r: RecordView| StoreOpView::Remove(r.key));
    if batch.len() > 0 {
        let rest = batch.drop_last();
        lemma_removals(contents, rest);
        assert(ops.drop_last() =~= rest.map_values(|r: RecordView| StoreOpView::Remove(r.key)));
        assert forall|key: Seq<u8>|
            in_batch(batch, key) <==> in_batch(rest, key) || batch.last().key == key by {
            lemma_in_batch_last(batch, key);
        }
    }
}

proof fn lemma_dead_letters(contents: Contents, batch: Seq<RecordView>)
    requires
        batch_is_queued(contents, batch),
    ensures
        ({
            let ops = batch.map_values(|r: RecordView| StoreOpView::DeadLetter(r));
            let after = contents.apply_all(ops);
            &&& forall|key: Seq<u8>| #[trigger]
                after.queue.contains_key(key) <==> contents.queue.contains_key(key) && !in_batch(
                    batch,
                    key,
                )
            &&& forall|key: Seq<u8>| #[trigger]
                after.queue.contains_key(key) ==> after.queue[key] == contents.queue[key]
            &&& forall|key: Seq<u8>| #[trigger]
                after.dead.contains_key(key) <==> contents.dead.contains_key(key) || in_batch(
                    batch,
                    key,
                )
            &&& forall|key: Seq<u8>| #[trigger]
                after.dead.contains_key(key) ==> after.dead[key] == if in_batch(batch, key) {
                    contents.queue[key]
                } else {
                    contents.dead[key]
                }
        }),
    decreases batch.len(),
{
    let ops = batch.map_values(|r: RecordView| StoreOpView::DeadLetter(r));
    if batch.len() > 0 {
        let rest = batch.drop_last();
        assert forall|i: int| 0 <= i < rest.len() implies contents.queue.contains_key(
            (#[trigger] rest[i]).key,
        ) && contents.queue[rest[i].key] == rest[i].value by {
            assert(rest[i] == batch[i]);
        }
        lemma_dead_letters(contents, rest);
        assert(ops.drop_last() =~= rest.map_values(|r: RecordView| StoreOpView::DeadLetter(r)));
        assert(batch[batch.len() - 1] == batch.last());
        assert forall|key: Seq<u8>|
            in_batch(batch, key) <==> in_batch(rest, key) || batch.last().key == key by {
            lemma_in_batch_last(batch, key);
        }
        let before = contents.apply_all(ops.drop_last());
        let after = contents.apply_all(ops);
        let r = batch.last();
        assert(ops.last() == StoreOpView::DeadLetter(r));
        assert(after == before.apply(StoreOpView::DeadLetter(r)));
        assert(contents.queue[r.key] == r.value);
    } else {
        assert(ops =~= seq![]);
    }
}

/// A delivery that fails leaves the store as it is: nothing is dropped before the
/// sink has acknowledged it.
pub proof fn law_failure_keeps_everything(
    contents: Contents,
    batch: Seq<RecordView>,
    delivery: Delivery,
)
    requires
        is_failed(delivery),
    ensures
        contents.apply_all(ops_after(batch, delivery)) == contents,
{
}

/// A delivered batch leaves the queue, and nothing else does.
pub proof fn law_delivery_drops_the_batch(
    contents: Contents,
    batch: Seq<RecordView>,
    delivery: Delivery,
)
    requires
        is_delivered(delivery),
    ensures
        ({
            let after = contents.apply_all(ops_after(batch, delivery));
            &&& after.dead == contents.dead
            &&& after.queue == contents.queue.remove_keys(
                contents.queue.dom().filter(|key: Seq<u8>| in_batch(batch, key)),
            )
        }),
{
    lemma_removals(contents, batch);
    let after = contents.apply_all(ops_after(batch, delivery));
    assert(after.queue =~= contents.queue.remove_keys(
        contents.queue.dom().filter(|key: Seq<u8>| in_batch(batch, key)),
    ));
}

/// No record is lost between the queue, the dead letters and the sink: whatever
/// becomes of a batch from the queue, each queued record stays as it was, or is
/// part of a batch that the sink has acknowledged, or lies unchanged among the dead
/// letters after the sink has rejected it; and each dead letter whose key is not in
/// the batch stays as it was.
pub proof fn law_no_record_is_lost(
    contents: Contents,
    batch: Seq<RecordView>,
    delivery: Delivery,
    key: Seq<u8>,
)
    requires
        batch_is_queued(contents, batch),
    ensures
        ({
            let after = contents.apply_all(ops_after(batch, delivery));
            &&& contents.queue.contains_key(key) ==> {
                ||| after.queue.contains_key(key) && after.queue[key] == contents.queue[key]
                ||| is_delivered(delivery) && in_batch(batch, key)
                ||| is_rejected(delivery) && in_batch(batch, key) && after.dead.contains_key(key)
                    && after.dead[key] == contents.queue[key]
            }
            &&& contents.dead.contains_key(key) && !in_batch(batch, key)
                ==> after.dead.contains_key(key) && after.dead[key] == contents.dead[key]
        }),
{
    if is_delivered(delivery) {
        lemma_removals(contents, batch);
    } else if is_rejected(delivery) {
        lemma_dead_letters(contents, batch);
    }
}

/// A rejected batch is not tried again: none of its keys is left in the queue.
pub proof fn law_rejected_is_not_retried(
    contents: Contents,
    batch: Seq<RecordView>,
    delivery: Delivery,
    i: int,
)
    requires
        batch_is_queued(contents, batch),
        is_rejected(delivery),
        0 <= i < batch.len(),
    ensures
        ({
            let after = contents.apply_all(ops_after(batch, delivery));
            &&& !after.queue.contains_key(batch[i].key)
            &&& after.dead.contains_key(batch[i].key)
            &&& after.dead[batch[i].key] == batch[i].value
        }),
{
    lemma_dead_letters(contents, batch);
    assert(in_batch(batch, batch[i].key));
    let after = contents.apply_all(ops_after(batch, delivery));
    assert(after.dead.contains_key(batch[i].key));
    assert(!after.queue.contains_key(batch[i].key));
}

/// A batch, with what became of it.
pub struct Round {
    pub batch: Seq<RecordView>,
    pub delivery: Delivery,
}

/// The forwarder after a row of rounds.
pub open spec fn state_after_all(
    state: EgressState,
    policy: ForwardPolicy,
    rounds: Seq<Round>,
) -> EgressState
    decreases rounds.len(),
{
    if rounds.len() == 0 {
        state
    } else {
        let last = rounds.last();
        state_after(
            state_after_all(state, policy, rounds.drop_last()),
            policy,
            last.batch,
            last.delivery,
        )
    }
}

/// How many deliveries have failed since the last delivered batch.
pub open spec fn failures_in_a_row(rounds: Seq<Round>) -> nat
    decreases rounds.len(),
{
    if rounds.len() == 0 || is_delivered(rounds.last().delivery) {
        0
    } else {
        let before = failures_in_a_row(rounds.drop_last());
        if is_failed(rounds.last().delivery) {
            before + 1
        } else {
            before
        }
    }
}

/// The backoff is exponential: whatever batches were tried and whatever became of
/// them, it is the base times two to the power of the failures since the last
/// delivered batch, or the bound where that is less. (With no such failure it is the
/// base, even where the bound is below it.) The failures are counted as far as the
/// counter goes.
pub proof fn law_backoff_is_exponential(policy: ForwardPolicy, rounds: Seq<Round>)
    ensures
        ({
            let state = state_after_all(initial_state(policy), policy, rounds);
            let n = failures_in_a_row(rounds);
            let grown = policy.base_backoff_ms * pow2(n);
            &&& state.failures == if n <= u64::MAX {
                n as int
            } else {
                u64::MAX as int
            }
            &&& state.backoff_ms == if n == 0 || grown <= policy.max_backoff_ms {
                grown as int
            } else {
                policy.max_backoff_ms as int
            }
        }),
    decreases rounds.len(),
{
    let base = policy.base_backoff_ms as int;
    let n = failures_in_a_row(rounds);
    assert(pow2(0) == 1) by {
        vstd::arithmetic::power2::lemma2_to64();
    }
    if rounds.len() > 0 {
        let rest = rounds.drop_last();
        law_backoff_is_exponential(policy, rest);
        if is_failed(rounds.last().delivery) {
            let p = pow2(failures_in_a_row(rest)) as int;
            lemma_pow2_unfold(n);
            lemma_pow2_pos(failures_in_a_row(rest));
            assert(base * (2 * p) == 2 * (base * p)) by (nonlinear_arith);
        }
    }
}

/// The backoff never exceeds the greater of base and bound.
pub proof fn law_backoff_is_bounded(
    state: EgressState,
    policy: ForwardPolicy,
    batch: Seq<RecordView>,
    delivery: Delivery,
    bound: u64,
)
    requires
        policy.base_backoff_ms <= bound,
        policy.max_backoff_ms <= bound,
        state.backoff_ms <= bound,
    ensures
        initial_state(policy).backoff_ms <= bound,
        state_after(state, policy, batch, delivery).backoff_ms <= bound,
{
}

/// A delivered batch starts the backoff and the count of failures anew.
pub proof fn law_delivery_resets(
    state: EgressState,
    policy: ForwardPolicy,
    batch: Seq<RecordView>,
    delivery: Delivery,
)
    requires
        is_delivered(delivery),
    ensures
        state_after(state, policy, batch, delivery).backoff_ms == initial_state(policy).backoff_ms,
        state_after(state, policy, batch, delivery).failures == 0,
{
}

proof fn lemma_readable_all(scan: Seq<Option<Record>>)
    requires
        forall|i: int| 0 <= i < scan.len() ==> (#[trigger] scan[i]) is Some,
    ensures
        readable(scan) == Seq::new(scan.len(), |i: int| scan[i]->0@),
    decreases scan.len(),
{
    if scan.len() > 0 {
        let rest = scan.drop_last();
        assert forall|i: int| 0 <= i < rest.len() implies (#[trigger] rest[i]) is Some by {
            assert(rest[i] == scan[i]);
        }
        lemma_readable_all(rest);
        assert(scan[scan.len() - 1] is Some);
    }
    assert(readable(scan) =~= Seq::new(scan.len(), |i: int| scan[i]->0@));
}

/// First in, first out: where the queue is walked in key order and every entry can
/// be read, the batch is the front of the queue, as much as a batch may hold, and
/// every record of it is older than every record left behind.
pub proof fn law_batch_is_the_oldest(scan: Seq<Option<Record>>, batch_size: nat, i: int, j: int)
    requires
        forall|i: int| 0 <= i < scan.len() ==> (#[trigger] scan[i]) is Some,
        forall|i: int, j: int|
            0 <= i < j < scan.len() ==> lex_before(
                (#[trigger] scan[i])->0.key@,
                (#[trigger] scan[j])->0.key@,
            ),
    ensures
        ({
            let batch = readable(first(scan, batch_size));
            &&& batch.len() == if batch_size < scan.len() {
                batch_size
            } else {
                scan.len()
            }
            &&& 0 <= i < batch.len() ==> batch[i] == scan[i]->0@
            &&& 0 <= i < batch.len() <= j < scan.len() ==> lex_before(
                batch[i].key,
                scan[j]->0.key@,
            )
        }),
{
    let front = first(scan, batch_size);
    assert forall|i: int| 0 <= i < front.len() implies (#[trigger] front[i]) is Some by {
        assert(front[i] == scan[i]);
    }
    lemma_readable_all(front);
}

/// What is forwarded of a message is the message as it was received.
pub proof fn law_forwards_what_was_received(seq: u64, data: Seq<u8>, now_ns: u128)
    requires
        data.len() <= u32::MAX,
    ensures
        payload_of(message_record(seq, data, now_ns).value) == data,
{
    law_envelope_round_trip(timestamp(now_ns), data);
}

/// A request body is made of whole lines, and the body of two batches in a row is
/// the one body behind the other.
pub proof fn law_body_is_lines(a: Seq<RecordView>, b: Seq<RecordView>)
    ensures
        body_of(a).len() > 0 ==> body_of(a).last() == 0x0a,
        body_of(a + b) == body_of(a) + body_of(b),
    decreases a.len() + b.len(),
{
    if a.len() > 0 {
        law_body_is_lines(a.drop_last(), seq![]);
    }
    if b.len() == 0 {
        assert(a + b =~= a);
        assert(body_of(a) + body_of(b) =~= body_of(a));
    } else {
        law_body_is_lines(a, b.drop_last());
        assert((a + b).drop_last() =~= a + b.drop_last());
        assert(body_of(a + b) =~= body_of(a) + body_of(b));
    }
}

/// The lines of a payload are the whole payload, with one line feed more at the end
/// exactly where it does not end in one, and nothing for nothing.
pub proof fn law_lines_keep_the_payload(payload: Seq<u8>)
    ensures
        lines_of(payload).take(payload.len() as int) == payload,
        lines_of(payload).len() <= payload.len() + 1,
        payload.len() == 0 ==> lines_of(payload).len() == 0,
        payload.len() > 0 ==> lines_of(payload).last() == 0x0a,
        payload.len() > 0 && payload.last() == 0x0a ==> lines_of(payload).len() == payload.len(),
{
    assert(lines_of(payload).take(payload.len() as int) =~= payload);
}

/// What a stored value carries: everything behind the header, where the header says
/// exactly how much that is; else everything.
pub proof fn law_payload_is_what_is_carried(value: Seq<u8>)
    ensures
        value.len() >= 12 && be_value(value.subrange(8, 12)) + 12 == value.len() ==> payload_of(
            value,
        ) == value.skip(12),
        value.len() < 12 || be_value(value.subrange(8, 12)) + 12 != value.len() ==> payload_of(
            value,
        ) == value,
{
    law_envelope_opening(value);
}

/// Every payload of a batch is in the body, whole and in its place: behind the bodies
/// of the records before it, and with at most one byte between it and the next one.
pub proof fn law_every_payload_is_sent(batch: Seq<RecordView>, i: int)
    requires
        0 <= i < batch.len(),
    ensures
        ({
            let from = body_of(batch.take(i)).len() as int;
            let payload = payload_of(batch[i].value);
            let to = body_of(batch.take(i + 1)).len() as int;
            &&& from + payload.len() <= to <= from + payload.len() + 1
            &&& to <= body_of(batch).len()
            &&& body_of(batch).subrange(from, from + payload.len() as int) == payload
            &&& body_of(batch).take(to).len() == to
        }),
        body_of(batch.take(0)).len() == 0,
        body_of(batch.take(batch.len() as int)) == body_of(batch),
{
    let payload = payload_of(batch[i].value);
    let head = batch.take(i);
    let upto = batch.take(i + 1);
    law_body_is_lines(upto, batch.skip(i + 1));
    assert(upto + batch.skip(i + 1) =~= batch);
    assert(upto.drop_last() =~= head);
    assert(upto.last() == batch[i]);
    law_lines_keep_the_payload(payload);
    let from = body_of(head).len() as int;
    let lines = lines_of(payload);
    assert(body_of(batch).subrange(from, from + payload.len() as int) =~= lines.take(
        payload.len() as int,
    ));
    assert(batch.take(batch.len() as int) =~= batch);
}

/// Every message of a batch is in the body as it was received, whole and in its place.
pub proof fn law_every_message_is_sent(
    batch: Seq<RecordView>,
    i: int,
    seq: u64,
    data: Seq<u8>,
    now_ns: u128,
)
    requires
        0 <= i < batch.len(),
        batch[i] == message_record(seq, data, now_ns),
        data.len() <= u32::MAX,
    ensures
        ({
            let from = body_of(batch.take(i)).len() as int;
            &&& from + data.len() <= body_of(batch).len()
            &&& body_of(batch).subrange(from, from + data.len() as int) == data
            &&& body_of(batch.take(i + 1)).len() <= from + data.len() + 1
        }),
{
    law_forwards_what_was_received(seq, data, now_ns);
    law_every_payload_is_sent(batch, i);
}

/// A batch is taken from the front: of the first entries, as many as it may hold, each
/// that could be read is in it, and nothing else, in order.
pub proof fn law_batch_is_what_could_be_read(
    scan: Seq<Option<Record>>,
    batch_size: nat,
    record: Record,
)
    ensures
        first(scan, batch_size).len() == if batch_size < scan.len() {
            batch_size
        } else {
            scan.len()
        },
        forall|i: int|
            0 <= i < first(scan, batch_size).len() ==> #[trigger] first(scan, batch_size)[i]
                == scan[i],
        readable(seq![]).len() == 0,
        readable(scan.push(None)) == readable(scan),
        readable(scan.push(Some(record))) == readable(scan).push(
            RecordView { key: record.key@, value: record.value@ },
        ),
{
    assert(scan.push(None).drop_last() =~= scan);
    assert(scan.push(Some(record)).drop_last() =~= scan);
}

/// The answer decides, by its number: a status from 200 to 299 takes each record of the
/// batch out of the queue, 400 sets each aside, and any other status, or none, changes
/// nothing.
pub proof fn law_status_decides(
    batch: Seq<RecordView>,
    status: u16,
    latency_ms: u128,
    reason: String,
    i: int,
)
    ensures
        ({
            let ops = ops_after(batch, Delivery::Answered { status, latency_ms });
            &&& 200 <= status <= 299 || status == 400 ==> ops.len() == batch.len()
            &&& 200 <= status <= 299 && 0 <= i < batch.len() ==> ops[i] == StoreOpView::Remove(
                batch[i].key,
            )
            &&& status == 400 && 0 <= i < batch.len() ==> ops[i] == StoreOpView::DeadLetter(
                batch[i],
            )
            &&& !(200 <= status <= 299) && status != 400 ==> ops.len() == 0
        }),
        ops_after(batch, Delivery::TlsFailed { reason }).len() == 0,
        ops_after(batch, Delivery::NoAnswer { reason }).len() == 0,
{
}

/// Removal needs an acknowledgement: whatever was answered, and whatever the batch,
/// nothing is taken out of the queue for good but by a status from 200 to 299.
pub proof fn law_removal_needs_success(batch: Seq<RecordView>, delivery: Delivery, key: Seq<u8>)
    ensures
        ops_after(batch, delivery).contains(StoreOpView::Remove(key)) ==> (
        delivery matches Delivery::Answered { status, .. } && 200 <= status <= 299),
        delivery matches Delivery::Answered { status, .. } && 500 <= status <= 599 ==> ops_after(
            batch,
            delivery,
        ).len() == 0,
{
    let ops = ops_after(batch, delivery);
    if ops.contains(StoreOpView::Remove(key)) {
        let i = choose|i: int| 0 <= i < ops.len() && ops[i] == StoreOpView::Remove(key);
        assert(ops[i] is Remove);
    }
}

/// The three outcomes by the number of the answer.
pub proof fn law_outcomes_by_number(delivery: Delivery)
    ensures
        is_delivered(delivery) <==> (delivery matches Delivery::Answered { status, .. } && status
            / 100 == 2),
        is_rejected(delivery) <==> (delivery matches Delivery::Answered { status, .. } && status
            == 400),
        is_failed(delivery) <==> (delivery matches Delivery::Answered { status, .. } ==> status
            / 100 != 2 && status != 400),
{
}

/// How the forwarder changes with an answer, by its number: success starts the wait and
/// the count anew and marks the number of the batch's last record; 400 changes nothing;
/// any other status, or none, doubles the wait up to its bound and counts one more.
pub proof fn law_state_by_number(
    state: EgressState,
    policy: ForwardPolicy,
    batch: Seq<RecordView>,
    delivery: Delivery,
    seq: u64,
)
    ensures
        ({
            let after = state_after(state, policy, batch, delivery);
            let answered = delivery is Answered;
            let status = delivery->status;
            if answered && 200 <= status <= 299 {
                &&& after.backoff_ms == policy.base_backoff_ms
                &&& after.failures == 0
                &&& batch.last().key == key_of(seq) ==> after.high_water == Some(seq)
                &&& batch.last().key.len() != 8 ==> after.high_water == state.high_water
            } else if answered && status == 400 {
                after == state
            } else {
                &&& after.high_water == state.high_water
                &&& after.failures == state.failures + 1 || (after.failures == u64::MAX
                    && state.failures == u64::MAX)
                &&& after.backoff_ms == 2 * state.backoff_ms || after.backoff_ms
                    == policy.max_backoff_ms
                &&& after.backoff_ms <= 2 * state.backoff_ms
                &&& after.backoff_ms <= policy.max_backoff_ms
            }
        }),
        initial_state(policy).backoff_ms == policy.base_backoff_ms,
        initial_state(policy).failures == 0,
        initial_state(policy).high_water is None,
{
    law_key_round_trip(seq);
}

/// How long the forwarder rests, by the number of the answer: a millisecond after
/// success, half a second after 400, and else the wait with the random part added, as
/// far as the number goes.
pub proof fn law_wait_by_number(state: EgressState, delivery: Delivery, jitter_ms: u64)
    ensures
        ({
            let wait = wait_after(state, delivery, jitter_ms);
            let answered = delivery is Answered;
            let status = delivery->status;
            if answered && 200 <= status <= 299 {
                wait == 1
            } else if answered && status == 400 {
                wait == 500
            } else {
                wait == state.backoff_ms + jitter_ms || (wait == u64::MAX && state.backoff_ms
                    + jitter_ms > u64::MAX)
            }
        }),
{
}

/// What is logged of a delivery, in full: how many records and how long it took; the
/// first and the last number of a rejected batch; which attempt has failed, for what
/// reason, and when the next one follows, up to the threshold, and only how many have
/// failed above it. The count goes as far as the number does.
pub proof fn law_delivery_notices(
    state: EgressState,
    policy: ForwardPolicy,
    batch: Seq<RecordView>,
    delivery: Delivery,
    jitter_ms: u64,
)
    ensures
        ({
            let notices = notices_after(state, policy, batch, delivery, jitter_ms);
            let answered = delivery is Answered;
            let status = delivery->status;
            let wait = decimal(wait_after(state, delivery, jitter_ms) as nat);
            let failures: int = if state.failures == u64::MAX {
                u64::MAX as int
            } else {
                state.failures + 1
            };
            let count = decimal(failures as nat);
            if answered && 200 <= status <= 299 {
                &&& notices.len() == if state.failures > 0 {
                    2nat
                } else {
                    1nat
                }
                &&& notices[0].kind == EventKind::BatchDelivered
                &&& notices[0].message == "Batch delivered; count="@ + decimal(batch.len())
                    + "; latency="@ + decimal(delivery->latency_ms as nat) + "ms"@
                &&& state.failures > 0 ==> notices[1].kind == EventKind::ForwardingResumed
                    && notices[1].message == "Network connectivity restored; forwarding resumed"@
            } else if answered && status == 400 {
                &&& notices.len() == 1
                &&& notices[0].kind == EventKind::BatchDeadLettered
                &&& notices[0].message
                    == "Dead-letter: batch rejected by server (HTTP 400); seq_start="@ + seq_text(
                    batch[0].key,
                ) + "; seq_end="@ + seq_text(batch.last().key)
            } else {
                let last = notices.last();
                &&& notices.len() == if delivery is TlsFailed {
                    2nat
                } else {
                    1nat
                }
                &&& delivery matches Delivery::TlsFailed { reason } ==> notices[0].kind
                    == EventKind::TlsHandshakeFailed && notices[0].message
                    == "TLS handshake failed; reason="@ + reason@
                &&& failures <= policy.failure_threshold ==> last.kind
                    == EventKind::DeliveryFailed && last.message
                    == "Batch delivery failed; attempt="@ + count + "; reason="@ + failure_reason(
                    delivery,
                ) + ("; retrying in "@ + wait + "ms"@)
                &&& failures > policy.failure_threshold ==> last.kind
                    == EventKind::DeliveryFailing && last.message
                    == "Consecutive delivery failures exceed threshold; count="@ + count + (
                "; retrying in "@ + wait + "ms"@)
            }
        }),
{
}

/// A reason is logged as it was given, a status by its number; a key by the number that
/// it spells.
pub proof fn law_logged_values(status: u16, latency_ms: u128, reason: String, seq: u64, odd: Seq<u8>)
    requires
        odd.len() != 8,
    ensures
        failure_reason(Delivery::Answered { status, latency_ms }) == "HTTP "@ + decimal(
            status as nat,
        ),
        failure_reason(Delivery::TlsFailed { reason }) == reason@,
        failure_reason(Delivery::NoAnswer { reason }) == reason@,
        seq_text(key_of(seq)) == decimal(seq as nat),
        seq_text(odd) == "unknown"@,
{
    law_key_round_trip(seq);
}

} // verus!
