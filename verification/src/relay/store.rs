//! The store as the relay sees it: a queue of records and a shelf for rejected ones.
use crate::relay::record::{Record, RecordView};
use vstd::prelude::*;

verus! {

/// A change that the program is to make to the store.
#[derive(Debug)]
pub enum StoreOp {
    /// Put a record into the queue.
    Insert(Record),
    /// Take the record with this key out of the queue.
    Remove(Vec<u8>),
    /// Move a record from the queue to the dead letters.
    DeadLetter(Record),
}

/// What a [`StoreOp`] says.
pub enum StoreOpView {
    Insert(RecordView),
    Remove(Seq<u8>),
    DeadLetter(RecordView),
}

impl View for StoreOp {
    type V = StoreOpView;

    open spec fn view(&self) -> StoreOpView {
        match self {
            StoreOp::Insert(r) => StoreOpView::Insert(r@),
            StoreOp::Remove(k) => StoreOpView::Remove(k@),
            StoreOp::DeadLetter(r) => StoreOpView::DeadLetter(r@),
        }
    }
}

/// What a list of changes says.
pub open spec fn op_views(ops: Seq<StoreOp>) -> Seq<StoreOpView> {
    ops.map_values(|op: StoreOp| op@)
}

/// What the store holds, by key.
pub struct Contents {
    /// The records that wait to be forwarded.
    pub queue: Map<Seq<u8>, Seq<u8>>,
    /// The records that the sink has rejected.
    pub dead: Map<Seq<u8>, Seq<u8>>,
}

impl Contents {
    /// The contents after one change.
    pub open spec fn apply(self, op: StoreOpView) -> Contents {
        match op {
            StoreOpView::Insert(r) => Contents { queue: self.queue.insert(r.key, r.value), ..self },
            StoreOpView::Remove(key) => Contents { queue: self.queue.remove(key), ..self },
            StoreOpView::DeadLetter(r) => Contents {
                queue: self.queue.remove(r.key),
                dead: self.dead.insert(r.key, r.value),
            },
        }
    }

    /// The contents after `ops`, in order.
    pub open spec fn apply_all(self, ops: Seq<StoreOpView>) -> Contents
        decreases ops.len(),
    {
        if ops.len() == 0 {
            self
        } else {
            self.apply_all(ops.drop_last()).apply(ops.last())
        }
    }
}

/// A view of changes shows each of them, whole and in order.
pub proof fn law_op_views_show_all(ops: Seq<StoreOp>, i: int)
    requires
        0 <= i < ops.len(),
    ensures
        op_views(ops).len() == ops.len(),
        ops[i] matches StoreOp::Insert(r) ==> (op_views(ops)[i] matches StoreOpView::Insert(v)
            && v.key == r.key@ && v.value == r.value@),
        ops[i] matches StoreOp::Remove(k) ==> op_views(ops)[i] == StoreOpView::Remove(k@),
        ops[i] matches StoreOp::DeadLetter(r) ==> (op_views(ops)[i] matches StoreOpView::DeadLetter(
            v,
        ) && v.key == r.key@ && v.value == r.value@),
{
}

/// One change is about one key: it puts the record into the queue, or takes it out,
/// or takes it out and puts it among the dead letters; every other key is as before.
pub proof fn law_one_change_one_key(contents: Contents, r: RecordView, other: Seq<u8>)
    ensures
        ({
            let after = contents.apply(StoreOpView::Insert(r));
            &&& after.queue.contains_key(r.key) && after.queue[r.key] == r.value
            &&& after.dead == contents.dead
        }),
        ({
            let after = contents.apply(StoreOpView::Remove(r.key));
            &&& !after.queue.contains_key(r.key)
            &&& after.dead == contents.dead
        }),
        ({
            let after = contents.apply(StoreOpView::DeadLetter(r));
            &&& !after.queue.contains_key(r.key)
            &&& after.dead.contains_key(r.key) && after.dead[r.key] == r.value
            &&& other != r.key ==> (after.dead.contains_key(other) <==> contents.dead.contains_key(
                other,
            )) && (contents.dead.contains_key(other) ==> after.dead[other] == contents.dead[other])
        }),
        other != r.key ==> forall|op: StoreOpView|
            op == StoreOpView::Insert(r) || op == StoreOpView::Remove(r.key) || op
                == StoreOpView::DeadLetter(r) ==> {
                let after = (#[trigger] contents.apply(op)).queue;
                &&& after.contains_key(other) <==> contents.queue.contains_key(other)
                &&& contents.queue.contains_key(other) ==> after[other] == contents.queue[other]
            },
{
}

/// Changes are made one after the other, each of them.
pub proof fn law_changes_in_order(contents: Contents, ops: Seq<StoreOpView>, op: StoreOpView)
    ensures
        contents.apply_all(seq![]) == contents,
        contents.apply_all(ops.push(op)) == contents.apply_all(ops).apply(op),
{
    assert(ops.push(op).drop_last() =~= ops);
}

} // verus!
