//! Ingest: from the named pipe into the queue.
use crate::audit::{notice, notice_views, EventKind, Notice, NoticeView};
use crate::bytes::{be_value, lex_before, push_all};
use crate::relay::record::{
    decode_key, encode_envelope, encode_key, envelope_of, key_of, law_envelope_layout,
    law_key_canonical, law_key_order, law_key_reading, law_key_round_trip, seq_of, Record,
    RecordView,
};
use crate::relay::store::{Contents, StoreOpView};
use crate::text::{decimal, push_decimal};
use vstd::prelude::*;

verus! {

/// How long the listener rests before it waits for the next client.
pub const RELISTEN_PAUSE_MS: u64 = 10;

/// The most bytes that one read takes from the pipe.
pub const READ_BUFFER_LEN: usize = 65536;

/// What happened at the pipe or at the store.
#[derive(Debug)]
pub enum IngestEvent {
    /// A client has connected.
    Connected,
    /// Waiting for a client failed.
    ConnectFailed,
    /// A read has returned `data`, and the message goes on behind it.
    Part { data: Vec<u8> },
    /// A read has returned `data` and with it the end of a message, at `now_ns`
    /// nanoseconds since the epoch. No data means that the client has gone.
    Received { data: Vec<u8>, now_ns: u128 },
    /// A read has failed.
    ReadFailed { reason: String },
    /// The record is committed to the store.
    Stored,
    /// The store has refused the record.
    StoreFailed { reason: String },
}

/// What the program is to do next.
#[derive(Debug)]
pub enum IngestAction {
    /// Read from the pipe.
    Read,
    /// Commit the record to the queue.
    Store(Record),
    /// Rest, then wait for a client.
    Relisten { pause_ms: u64 },
    /// Disconnect the client, rest, then wait for the next one.
    Disconnect { pause_ms: u64 },
}

/// What an [`IngestAction`] says.
pub enum IngestActionView {
    Read,
    Store(RecordView),
    Relisten { pause_ms: u64 },
    Disconnect { pause_ms: u64 },
}

impl View for IngestAction {
    type V = IngestActionView;

    open spec fn view(&self) -> IngestActionView {
        match self {
            IngestAction::Read => IngestActionView::Read,
            IngestAction::Store(r) => IngestActionView::Store(r@),
            IngestAction::Relisten { pause_ms } => IngestActionView::Relisten {
                pause_ms: *pause_ms,
            },
            IngestAction::Disconnect { pause_ms } => IngestActionView::Disconnect {
                pause_ms: *pause_ms,
            },
        }
    }
}

/// The answer to an [`IngestEvent`].
#[derive(Debug)]
pub struct IngestStep {
    pub action: IngestAction,
    pub notices: Vec<Notice>,
}

/// The sequence number that follows `seq`.
pub open spec fn seq_after(seq: u64) -> u64 {
    if seq == u64::MAX {
        0
    } else {
        (seq + 1) as u64
    }
}

/// The first sequence number that is free behind the last key of a keyspace.
pub open spec fn seq_behind(last: Option<Seq<u8>>) -> u64 {
    match last {
        Some(key) => match seq_of(key) {
            Some(seq) => seq_after(seq),
            None => 0,
        },
        None => 0,
    }
}

/// The first sequence number that is free behind both keyspaces.
pub open spec fn resume_seq(last_queued: Option<Seq<u8>>, last_dead: Option<Seq<u8>>) -> u64 {
    let q = seq_behind(last_queued);
    let d = seq_behind(last_dead);
    if q < d {
        d
    } else {
        q
    }
}

/// The low 64 bits of a count of nanoseconds.
pub open spec fn timestamp(now_ns: u128) -> u64 {
    (now_ns % 0x1_0000_0000_0000_0000) as u64
}

/// The record of a message.
pub open spec fn message_record(seq: u64, data: Seq<u8>, now_ns: u128) -> RecordView {
    RecordView { key: key_of(seq), value: envelope_of(timestamp(now_ns), data) }
}

/// What the ingest side knows between two events.
pub struct IngestView {
    /// The sequence number of the next message.
    pub next_seq: u64,
    /// What has been read of a message that goes on.
    pub partial: Seq<u8>,
}

/// Whether a message outgrows the length that an envelope can hold.
pub open spec fn is_too_long(partial: Seq<u8>, data: Seq<u8>) -> bool {
    partial.len() + data.len() > u32::MAX
}

/// What the program is to do about `event`: a message is stored once its end has
/// been read, and whole.
pub open spec fn action_for(state: IngestView, event: IngestEvent) -> IngestActionView {
    match event {
        IngestEvent::Connected => IngestActionView::Read,
        IngestEvent::ConnectFailed => IngestActionView::Relisten { pause_ms: 10 },
        IngestEvent::Part { data } => if is_too_long(state.partial, data@) {
            IngestActionView::Disconnect { pause_ms: 10 }
        } else {
            IngestActionView::Read
        },
        IngestEvent::Received { data, now_ns } => if data@.len() == 0 || is_too_long(
            state.partial,
            data@,
        ) {
            IngestActionView::Disconnect { pause_ms: 10 }
        } else {
            IngestActionView::Store(message_record(state.next_seq, state.partial + data@, now_ns))
        },
        IngestEvent::ReadFailed { .. } => IngestActionView::Disconnect { pause_ms: 10 },
        IngestEvent::Stored => IngestActionView::Read,
        IngestEvent::StoreFailed { .. } => IngestActionView::Read,
    }
}

/// What the audit trail is told about `event`.
pub open spec fn notices_for(state: IngestView, event: IngestEvent) -> Seq<NoticeView> {
    let too_long = NoticeView {
        kind: EventKind::PipeReadFailed,
        message: "Named pipe read error: message too long"@,
    };
    let disconnected = NoticeView {
        kind: EventKind::PipeDisconnected,
        message: "Named pipe client disconnected"@,
    };
    match event {
        IngestEvent::Connected => seq![
            NoticeView {
                kind: EventKind::PipeConnected,
                message: "Named pipe client connected"@,
            },
        ],
        IngestEvent::Part { data } => if is_too_long(state.partial, data@) {
            seq![too_long]
        } else {
            seq![]
        },
        IngestEvent::Received { data, now_ns } => if data@.len() == 0 && state.partial.len() == 0 {
            seq![disconnected]
        } else if data@.len() == 0 {
            seq![
                NoticeView {
                    kind: EventKind::PipeReadFailed,
                    message: "Named pipe read error: message broken off after "@ + decimal(
                        state.partial.len(),
                    ) + " bytes"@,
                },
                disconnected,
            ]
        } else if is_too_long(state.partial, data@) {
            seq![too_long]
        } else {
            seq![]
        },
        IngestEvent::ReadFailed { reason } => seq![
            NoticeView {
                kind: EventKind::PipeReadFailed,
                message: "Named pipe read error: "@ + reason@,
            },
        ],
        IngestEvent::StoreFailed { reason } => seq![
            NoticeView {
                kind: EventKind::StoreWriteFailed,
                message: "Fjall Write Error: "@ + reason@,
            },
        ],
        IngestEvent::ConnectFailed | IngestEvent::Stored => seq![],
    }
}

/// The next sequence number once `event` has happened: only a committed record
/// uses its number up.
pub open spec fn seq_following(seq: u64, event: IngestEvent) -> u64 {
    if event is Stored {
        seq_after(seq)
    } else {
        seq
    }
}

/// What is known once `event` has happened: a part is kept until the rest of its
/// message has been read, or will not come.
pub open spec fn state_following(state: IngestView, event: IngestEvent) -> IngestView {
    IngestView {
        next_seq: seq_following(state.next_seq, event),
        partial: match event {
            IngestEvent::Part { data } => if is_too_long(state.partial, data@) {
                seq![]
            } else {
                state.partial + data@
            },
            _ => seq![],
        },
    }
}

/// The text `prefix` followed by `reason`.
fn with_reason(prefix: &str, reason: &str) -> (text: String)
    ensures
        text@ == prefix@ + reason@,
{
    let mut text = prefix.to_owned();
    text.append(reason);
    text
}

/// The sequence number that follows the one of `last`.
fn behind(last: Option<&[u8]>) -> (seq: u64)
    ensures
        seq == seq_behind(
            match last {
                Some(key) => Some(key@),
                None => None,
            },
        ),
{
    match last {
        Some(key) => match decode_key(key) {
            Some(seq) => seq.wrapping_add(1),
            None => 0,
        },
        None => 0,
    }
}

/// The ingest side of the relay.
#[derive(Debug)]
pub struct Ingest {
    /// The sequence number of the next message.
    pub next_seq: u64,
    /// What has been read of a message that goes on.
    pub partial: Vec<u8>,
}

impl View for Ingest {
    type V = IngestView;

    open spec fn view(&self) -> IngestView {
        IngestView { next_seq: self.next_seq, partial: self.partial@ }
    }
}

/// Tells whether a message outgrows the length that an envelope can hold.
fn too_long(partial: &Vec<u8>, data: &Vec<u8>) -> (r: bool)
    ensures
        r == is_too_long(partial@, data@),
{
    partial.len() as u128 + data.len() as u128 > u32::MAX as u128
}

impl Ingest {
    /// Continues behind the last keys of the queue and of the dead letters.
    pub fn resume(last_queued: Option<&[u8]>, last_dead: Option<&[u8]>) -> (ingest: Ingest)
        ensures
            ingest.partial@.len() == 0,
            ingest.next_seq == resume_seq(
                match last_queued {
                    Some(key) => Some(key@),
                    None => None,
                },
                match last_dead {
                    Some(key) => Some(key@),
                    None => None,
                },
            ),
    {
        let q = behind(last_queued);
        let d = behind(last_dead);
        Ingest { next_seq: if q < d { d } else { q }, partial: Vec::new() }
    }

    /// Answers what happened at the pipe or at the store.
    pub fn step(&mut self, event: IngestEvent) -> (step: IngestStep)
        ensures
            final(self)@ == state_following(old(self)@, event),
            step.action@ == action_for(old(self)@, event),
            notice_views(step.notices@) == notices_for(old(self)@, event),
    {
        let ghost asked = event;
        let ghost before = self@;
        let mut notices: Vec<Notice> = Vec::new();
        let mut partial: Vec<u8> = Vec::new();
        std::mem::swap(&mut partial, &mut self.partial);
        let action = match event {
            IngestEvent::Connected => {
                notices.push(
                    notice(EventKind::PipeConnected, "Named pipe client connected".to_owned()),
                );
                IngestAction::Read
            },
            IngestEvent::ConnectFailed => IngestAction::Relisten { pause_ms: RELISTEN_PAUSE_MS },
            IngestEvent::Part { data } => if too_long(&partial, &data) {
                notices.push(
                    notice(
                        EventKind::PipeReadFailed,
                        "Named pipe read error: message too long".to_owned(),
                    ),
                );
                IngestAction::Disconnect { pause_ms: RELISTEN_PAUSE_MS }
            } else {
                push_all(&mut partial, data.as_slice());
                self.partial = partial;
                IngestAction::Read
            },
            IngestEvent::Received { data, now_ns } => if data.len() == 0 {
                if partial.len() > 0 {
                    let mut text = "Named pipe read error: message broken off after ".to_owned();
                    push_decimal(&mut text, partial.len() as u128);
                    text.append(" bytes");
                    notices.push(notice(EventKind::PipeReadFailed, text));
                }
                notices.push(
                    notice(
                        EventKind::PipeDisconnected,
                        "Named pipe client disconnected".to_owned(),
                    ),
                );
                IngestAction::Disconnect { pause_ms: RELISTEN_PAUSE_MS }
            } else if too_long(&partial, &data) {
                notices.push(
                    notice(
                        EventKind::PipeReadFailed,
                        "Named pipe read error: message too long".to_owned(),
                    ),
                );
                IngestAction::Disconnect { pause_ms: RELISTEN_PAUSE_MS }
            } else {
                let ts = (now_ns % 0x1_0000_0000_0000_0000) as u64;
                push_all(&mut partial, data.as_slice());
                IngestAction::Store(
                    Record {
                        key: encode_key(self.next_seq),
                        value: encode_envelope(ts, partial.as_slice()),
                    },
                )
            },
            IngestEvent::ReadFailed { reason } => {
                notices.push(
                    notice(
                        EventKind::PipeReadFailed,
                        with_reason("Named pipe read error: ", reason.as_str()),
                    ),
                );
                IngestAction::Disconnect { pause_ms: RELISTEN_PAUSE_MS }
            },
            IngestEvent::Stored => {
                self.next_seq = self.next_seq.wrapping_add(1);
                IngestAction::Read
            },
            IngestEvent::StoreFailed { reason } => {
                notices.push(
                    notice(
                        EventKind::StoreWriteFailed,
                        with_reason("Fjall Write Error: ", reason.as_str()),
                    ),
                );
                IngestAction::Read
            },
        };
        assert(notice_views(notices@) =~= notices_for(before, asked));
        assert(self@.partial =~= state_following(before, asked).partial);
        IngestStep { action, notices }
    }
}

/// What is known once all of `events` have happened.
pub open spec fn state_following_all(state: IngestView, events: Seq<IngestEvent>) -> IngestView
    decreases events.len(),
{
    if events.len() == 0 {
        state
    } else {
        state_following(state_following_all(state, events.drop_last()), events.last())
    }
}

/// The bytes of a row of parts.
pub open spec fn parts_data(parts: Seq<IngestEvent>) -> Seq<u8>
    decreases parts.len(),
{
    if parts.len() == 0 {
        seq![]
    } else {
        parts_data(parts.drop_last()) + parts.last()->Part_data@
    }
}

proof fn lemma_parts_are_gathered(state: IngestView, parts: Seq<IngestEvent>)
    requires
        forall|i: int| 0 <= i < parts.len() ==> (#[trigger] parts[i]) is Part,
        state.partial.len() + parts_data(parts).len() <= u32::MAX,
    ensures
        state_following_all(state, parts) == (IngestView {
            next_seq: state.next_seq,
            partial: state.partial + parts_data(parts),
        }),
    decreases parts.len(),
{
    if parts.len() > 0 {
        let rest = parts.drop_last();
        assert(parts[parts.len() - 1] is Part);
        assert forall|i: int| 0 <= i < rest.len() implies (#[trigger] rest[i]) is Part by {
            assert(rest[i] == parts[i]);
        }
        lemma_parts_are_gathered(state, rest);
    }
    assert(state_following_all(state, parts).partial =~= state.partial + parts_data(parts));
}

/// Messages are stored whole: however many reads a message takes, what is stored
/// is one record with all of it, once its end has been read.
pub proof fn law_messages_are_stored_whole(
    state: IngestView,
    parts: Seq<IngestEvent>,
    data: Vec<u8>,
    now_ns: u128,
)
    requires
        state.partial.len() == 0,
        forall|i: int| 0 <= i < parts.len() ==> (#[trigger] parts[i]) is Part,
        data@.len() > 0,
        parts_data(parts).len() + data@.len() <= u32::MAX,
    ensures
        forall|i: int|
            0 <= i < parts.len() ==> action_for(
                state_following_all(state, parts.take(i)),
                #[trigger] parts[i],
            ) is Read,
        action_for(state_following_all(state, parts), IngestEvent::Received { data, now_ns })
            == IngestActionView::Store(
            message_record(state.next_seq, parts_data(parts) + data@, now_ns),
        ),
    decreases parts.len(),
{
    lemma_parts_are_gathered(state, parts);
    assert(state.partial + parts_data(parts) =~= parts_data(parts));
    if parts.len() > 0 {
        let rest = parts.drop_last();
        assert forall|i: int| 0 <= i < rest.len() implies (#[trigger] rest[i]) is Part by {
            assert(rest[i] == parts[i]);
        }
        law_messages_are_stored_whole(state, rest, data, now_ns);
        lemma_parts_are_gathered(state, rest);
        assert forall|i: int| 0 <= i < parts.len() implies action_for(
            state_following_all(state, parts.take(i)),
            #[trigger] parts[i],
        ) is Read by {
            if i < rest.len() {
                assert(rest[i] == parts[i]);
                assert(rest.take(i) =~= parts.take(i));
            } else {
                assert(parts.take(i) =~= rest);
                assert(parts[i] == parts.last());
            }
        }
    }
}

/// Every key in the store is a key, of a sequence number below `seq`.
pub open spec fn all_below(contents: Contents, seq: u64) -> bool {
    &&& forall|key: Seq<u8>| #[trigger]
        contents.queue.contains_key(key) ==> seq_of(key) is Some && seq_of(key)->0 < seq
    &&& forall|key: Seq<u8>| #[trigger]
        contents.dead.contains_key(key) ==> seq_of(key) is Some && seq_of(key)->0 < seq
}

/// Whether `last` is the lexicographically last key of `m`, where all keys are
/// keys of sequence numbers below the greatest one.
pub open spec fn is_last_key(m: Map<Seq<u8>, Seq<u8>>, last: Option<Seq<u8>>) -> bool {
    &&& forall|key: Seq<u8>| #[trigger]
        m.contains_key(key) ==> seq_of(key) is Some && seq_of(key)->0 < u64::MAX
    &&& match last {
        Some(key) => m.contains_key(key) && forall|other: Seq<u8>| #[trigger]
            m.contains_key(other) ==> !lex_before(key, other),
        None => forall|key: Seq<u8>| !#[trigger] m.contains_key(key),
    }
}

proof fn lemma_behind_is_free(m: Map<Seq<u8>, Seq<u8>>, last: Option<Seq<u8>>)
    requires
        is_last_key(m, last),
    ensures
        forall|key: Seq<u8>| #[trigger]
            m.contains_key(key) ==> seq_of(key) is Some && seq_of(key)->0 < seq_behind(last),
{
    assert forall|key: Seq<u8>| #[trigger] m.contains_key(key) implies seq_of(key) is Some
        && seq_of(key)->0 < seq_behind(last) by {
        let top = last->0;
        law_key_canonical(key);
        law_key_canonical(top);
        law_key_order(seq_of(top)->0, seq_of(key)->0);
    }
}

/// After a restart, numbering continues behind everything that is stored, queued
/// or dead: no stored record is ever given its number again. (A store that holds
/// the greatest sequence number is outside this law, since numbering wraps there.)
pub proof fn law_resume_is_fresh(
    contents: Contents,
    last_queued: Option<Seq<u8>>,
    last_dead: Option<Seq<u8>>,
)
    requires
        is_last_key(contents.queue, last_queued),
        is_last_key(contents.dead, last_dead),
    ensures
        all_below(contents, resume_seq(last_queued, last_dead)),
{
    lemma_behind_is_free(contents.queue, last_queued);
    lemma_behind_is_free(contents.dead, last_dead);
}

/// Committing the next message adds its record, loses and changes no other one,
/// and leaves the following number free, until the numbers run out.
pub proof fn law_store_is_fresh(contents: Contents, seq: u64, data: Seq<u8>, now_ns: u128)
    requires
        all_below(contents, seq),
        seq < u64::MAX,
    ensures
        ({
            let r = message_record(seq, data, now_ns);
            let after = contents.apply(StoreOpView::Insert(r));
            &&& !contents.queue.contains_key(r.key)
            &&& !contents.dead.contains_key(r.key)
            &&& after.queue == contents.queue.insert(r.key, r.value)
            &&& after.dead == contents.dead
            &&& all_below(after, seq_following(seq, IngestEvent::Stored))
        }),
{
    law_key_round_trip(seq);
}

/// A message whose record is not committed does not use its number up, so the
/// numbers of committed messages are consecutive.
pub proof fn law_numbers_are_consecutive(seq: u64, event: IngestEvent)
    requires
        seq < u64::MAX,
    ensures
        seq_following(seq, event) == if event is Stored {
            seq + 1
        } else {
            seq as int
        },
{
}

/// What is stored of a message, byte by byte: under eight bytes that spell the next
/// sequence number, eight that spell the time of its end, in nanoseconds, as far as
/// they go, four that spell its length, and then everything that was read of it, in
/// order.
pub proof fn law_stored_message(state: IngestView, data: Vec<u8>, now_ns: u128)
    requires
        data@.len() > 0,
        state.partial.len() + data@.len() <= u32::MAX,
    ensures
        action_for(state, IngestEvent::Received { data, now_ns }) matches IngestActionView::Store(r)
            && {
            &&& r.key.len() == 8
            &&& be_value(r.key) == state.next_seq
            &&& r.value.len() == 12 + state.partial.len() + data@.len()
            &&& be_value(r.value.take(8)) == now_ns % 0x1_0000_0000_0000_0000
            &&& now_ns <= u64::MAX ==> be_value(r.value.take(8)) == now_ns
            &&& be_value(r.value.subrange(8, 12)) == state.partial.len() + data@.len()
            &&& r.value.skip(12) == state.partial + data@
        },
{
    law_key_round_trip(state.next_seq);
    law_key_reading(key_of(state.next_seq));
    law_envelope_layout(timestamp(now_ns), state.partial + data@);
}

/// A record is stored for the end of a message and for nothing else, and never for
/// one that is longer than four bytes can say.
pub proof fn law_only_messages_are_stored(state: IngestView, event: IngestEvent)
    ensures
        action_for(state, event) is Store <==> (event matches IngestEvent::Received { data, .. }
            && data@.len() > 0 && state.partial.len() + data@.len() < 0x1_0000_0000),
{
}

/// Reading goes on with the same client unless it has gone, its pipe has failed or its
/// message is too long; then it is let go, and the listener rests for ten milliseconds.
pub proof fn law_reading_goes_on(state: IngestView, event: IngestEvent)
    ensures
        event is Connected || event is Stored || event is StoreFailed ==> action_for(
            state,
            event,
        ) is Read,
        event matches IngestEvent::Part { data } ==> (action_for(state, event) is Read
            <==> state.partial.len() + data@.len() < 0x1_0000_0000),
        event matches IngestEvent::Received { data, .. } ==> (action_for(state, event) == (
        IngestActionView::Disconnect { pause_ms: 10 }) <==> data@.len() == 0 || state.partial.len()
            + data@.len() >= 0x1_0000_0000),
        event is Part && !(action_for(state, event) is Read) ==> action_for(state, event) == (
        IngestActionView::Disconnect { pause_ms: 10 }),
        event is ReadFailed ==> action_for(state, event) == (IngestActionView::Disconnect {
            pause_ms: 10,
        }),
        event is ConnectFailed ==> action_for(state, event) == (IngestActionView::Relisten {
            pause_ms: 10,
        }),
{
}

/// What is known changes in two ways only: a committed record counts the number up by
/// one, wrapping behind the greatest; and a part, as long as the message can be said,
/// adds its bytes, where anything else starts the next message afresh.
pub proof fn law_what_is_known_changes(state: IngestView, event: IngestEvent)
    ensures
        event is Stored ==> state_following(state, event).next_seq == (state.next_seq + 1)
            % 0x1_0000_0000_0000_0000,
        !(event is Stored) ==> state_following(state, event).next_seq == state.next_seq,
        event matches IngestEvent::Part { data } ==> state_following(state, event).partial == if (
        state.partial.len() + data@.len() < 0x1_0000_0000) {
            state.partial + data@
        } else {
            Seq::<u8>::empty()
        },
        !(event is Part) ==> state_following(state, event).partial.len() == 0,
{
}

/// Numbering goes on with exactly one more than the greater of the two last numbers;
/// an empty keyspace has no say, and one whose last number is the greatest of all
/// starts anew.
pub proof fn law_resume_is_exact(queued: u64, dead: u64, odd: Seq<u8>)
    requires
        odd.len() != 8,
    ensures
        queued < u64::MAX && dead < u64::MAX ==> resume_seq(
            Some(key_of(queued)),
            Some(key_of(dead)),
        ) == if queued < dead {
            dead + 1
        } else {
            queued + 1
        },
        queued < u64::MAX ==> resume_seq(Some(key_of(queued)), None) == queued + 1,
        dead < u64::MAX ==> resume_seq(None, Some(key_of(dead))) == dead + 1,
        dead < u64::MAX ==> resume_seq(Some(key_of(u64::MAX)), Some(key_of(dead))) == dead + 1,
        queued < u64::MAX ==> resume_seq(Some(key_of(queued)), Some(key_of(u64::MAX))) == queued
            + 1,
        resume_seq(Some(key_of(u64::MAX)), None) == 0,
        resume_seq(None, Some(key_of(u64::MAX))) == 0,
        resume_seq(None, None) == 0,
        resume_seq(Some(odd), None) == 0,
        resume_seq(None, Some(odd)) == 0,
{
    law_key_round_trip(queued);
    law_key_round_trip(dead);
    law_key_round_trip(u64::MAX);
}

/// Each notice names what happened in full: the whole reason of a failure, and how
/// much was read of a message that broke off.
pub proof fn law_ingest_notices(state: IngestView, event: IngestEvent)
    ensures
        event matches IngestEvent::ReadFailed { reason } ==> notices_for(state, event).len() == 1
            && notices_for(state, event)[0].kind == EventKind::PipeReadFailed && notices_for(
            state,
            event,
        )[0].message == "Named pipe read error: "@ + reason@,
        event matches IngestEvent::StoreFailed { reason } ==> notices_for(state, event).len() == 1
            && notices_for(state, event)[0].kind == EventKind::StoreWriteFailed && notices_for(
            state,
            event,
        )[0].message == "Fjall Write Error: "@ + reason@,
        event is Connected ==> notices_for(state, event).len() == 1 && notices_for(
            state,
            event,
        )[0].kind == EventKind::PipeConnected && notices_for(state, event)[0].message
            == "Named pipe client connected"@,
        event is ConnectFailed || event is Stored ==> notices_for(state, event).len() == 0,
        event matches IngestEvent::Part { data } && state.partial.len() + data@.len()
            < 0x1_0000_0000 ==> notices_for(state, event).len() == 0,
        event matches IngestEvent::Received { data, .. } && 0 < data@.len() && state.partial.len()
            + data@.len() < 0x1_0000_0000 ==> notices_for(state, event).len() == 0,
        event matches IngestEvent::Part { data } && state.partial.len() + data@.len()
            >= 0x1_0000_0000 ==> notices_for(state, event).len() == 1 && notices_for(
            state,
            event,
        )[0].kind == EventKind::PipeReadFailed && notices_for(state, event)[0].message
            == "Named pipe read error: message too long"@,
        event matches IngestEvent::Received { data, .. } && 0 < data@.len() && state.partial.len()
            + data@.len() >= 0x1_0000_0000 ==> notices_for(state, event).len() == 1 && notices_for(
            state,
            event,
        )[0].kind == EventKind::PipeReadFailed && notices_for(state, event)[0].message
            == "Named pipe read error: message too long"@,
        event matches IngestEvent::Received { data, .. } && data@.len() == 0 ==> {
            &&& notices_for(state, event).last().kind == EventKind::PipeDisconnected
            &&& notices_for(state, event).last().message == "Named pipe client disconnected"@
            &&& state.partial.len() == 0 ==> notices_for(state, event).len() == 1
            &&& state.partial.len() > 0 ==> notices_for(state, event).len() == 2 && notices_for(
                state,
                event,
            )[0].kind == EventKind::PipeReadFailed && notices_for(state, event)[0].message
                == "Named pipe read error: message broken off after "@ + decimal(
                state.partial.len(),
            ) + " bytes"@
        },
{
}

/// The view of an action and of the ingest side shows every field.
pub proof fn law_ingest_views_show_all(ingest: Ingest, record: Record, pause_ms: u64)
    ensures
        ingest@.next_seq == ingest.next_seq,
        ingest@.partial == ingest.partial@,
        IngestAction::Store(record)@ matches IngestActionView::Store(r) && r.key == record.key@
            && r.value == record.value@,
        IngestAction::Read@ is Read,
        (IngestAction::Relisten { pause_ms })@ == (IngestActionView::Relisten { pause_ms }),
        (IngestAction::Disconnect { pause_ms })@ == (IngestActionView::Disconnect { pause_ms }),
{
}

} // verus!
