//! Histories of operations on the model, and what holds of every history.

use vstd::prelude::*;
use crate::window::Window;
use crate::window::SHUFFLE_THRESHOLD;

verus! {

/// One call on the queue, with what the caller hands in.
pub enum Op {
    /// A push of one byte.
    PushOne(u8),
    /// A push of a block of bytes.
    PushMany(Seq<u8>),
    /// A read of one byte.
    ReadOne,
    /// A read into a block of that many slots.
    ReadMany(nat),
}

impl Window {
    /// The window after one operation on a storage of `cap` slots.
    pub open spec fn step(self, cap: nat, op: Op) -> Window {
        match op {
            Op::PushOne(b) => self.pushed(cap, seq![b]),
            Op::PushMany(data) => self.pushed(cap, data),
            Op::ReadOne => self.after_read_one(SHUFFLE_THRESHOLD as nat),
            Op::ReadMany(wanted) => self.after_read_many(wanted),
        }
    }

    /// The bytes that the operation takes into the queue.
    pub open spec fn taken(self, cap: nat, op: Op) -> Seq<u8> {
        match op {
            Op::PushOne(b) => seq![b].take(self.push_count(cap, 1) as int),
            Op::PushMany(data) => data.take(self.push_count(cap, data.len()) as int),
            Op::ReadOne => Seq::empty(),
            Op::ReadMany(_) => Seq::empty(),
        }
    }

    /// The bytes that the operation hands out to the reader.
    pub open spec fn given(self, op: Op) -> Seq<u8> {
        match op {
            Op::PushOne(_) => Seq::empty(),
            Op::PushMany(_) => Seq::empty(),
            Op::ReadOne => self.read_bytes(1),
            Op::ReadMany(wanted) => self.read_bytes(wanted),
        }
    }
}

/// Whether the operation is a read.
pub open spec fn is_read(op: Op) -> bool {
    op is ReadOne || op is ReadMany
}

/// The window after the operations `ops`, in their order, starting from `w`.
pub open spec fn run(w: Window, cap: nat, ops: Seq<Op>) -> Window
    decreases ops.len(),
{
    if ops.len() == 0 {
        w
    } else {
        run(w, cap, ops.drop_last()).step(cap, ops.last())
    }
}

/// All bytes taken into the queue over the operations `ops`, oldest first.
pub open spec fn all_taken(w: Window, cap: nat, ops: Seq<Op>) -> Seq<u8>
    decreases ops.len(),
{
    if ops.len() == 0 {
        Seq::empty()
    } else {
        all_taken(w, cap, ops.drop_last()) + run(w, cap, ops.drop_last()).taken(cap, ops.last())
    }
}

/// All bytes handed out to the reader over the operations `ops`, in the
/// order in which they were handed out.
pub open spec fn all_given(w: Window, cap: nat, ops: Seq<Op>) -> Seq<u8>
    decreases ops.len(),
{
    if ops.len() == 0 {
        Seq::empty()
    } else {
        all_given(w, cap, ops.drop_last()) + run(w, cap, ops.drop_last()).given(ops.last())
    }
}

/// One operation keeps the window inside the storage.
pub proof fn lemma_step_fits(w: Window, cap: nat, op: Op)
    requires
        w.fits(cap),
    ensures
        w.step(cap, op).fits(cap),
{
}

/// Whatever operations are made, and in whatever order, the window stays
/// inside the storage: the read cursor never passes the write cursor, and the
/// write cursor never passes the capacity.
pub proof fn lemma_run_fits(w: Window, cap: nat, ops: Seq<Op>)
    requires
        w.fits(cap),
    ensures
        run(w, cap, ops).fits(cap),
        run(w, cap, ops).head <= run(w, cap, ops).tail() <= cap,
    decreases ops.len(),
{
    if ops.len() > 0 {
        lemma_run_fits(w, cap, ops.drop_last());
        lemma_step_fits(run(w, cap, ops.drop_last()), cap, ops.last());
    }
}

/// One operation loses no byte and changes none: the unread bytes before it,
/// followed by what it took in, are what it handed out, followed by the
/// unread bytes after it.
pub proof fn lemma_step_conserves(w: Window, cap: nat, op: Op)
    ensures
        w.bytes + w.taken(cap, op) == w.given(op) + w.step(cap, op).bytes,
{
    assert(w.bytes + w.taken(cap, op) =~= w.given(op) + w.step(cap, op).bytes);
}

/// Over any history, the bytes that were unread at its start, followed by
/// all that were taken in, are all that were handed out, followed by those
/// still unread: every byte taken in comes out once, unchanged and in the
/// order of arrival, however often the window was slid back in between.
pub proof fn lemma_run_conserves(w: Window, cap: nat, ops: Seq<Op>)
    ensures
        w.bytes + all_taken(w, cap, ops) == all_given(w, cap, ops) + run(w, cap, ops).bytes,
    decreases ops.len(),
{
    if ops.len() == 0 {
        assert(w.bytes + all_taken(w, cap, ops) =~= all_given(w, cap, ops) + run(
            w,
            cap,
            ops,
        ).bytes);
    } else {
        let before = run(w, cap, ops.drop_last());
        lemma_run_conserves(w, cap, ops.drop_last());
        lemma_step_conserves(before, cap, ops.last());
        let t0 = all_taken(w, cap, ops.drop_last());
        let g0 = all_given(w, cap, ops.drop_last());
        let t = before.taken(cap, ops.last());
        let g = before.given(ops.last());
        let after = before.step(cap, ops.last());
        assert(w.bytes + (t0 + t) =~= (w.bytes + t0) + t);
        assert((g0 + before.bytes) + t =~= g0 + (before.bytes + t));
        assert(g0 + (g + after.bytes) =~= (g0 + g) + after.bytes);
    }
}

/// A read on an empty queue hands out nothing and leaves the queue as it is.
pub proof fn lemma_empty_read_idle(w: Window, cap: nat, op: Op)
    requires
        w.available() == 0,
        is_read(op),
    ensures
        w.step(cap, op) == w,
        w.given(op).len() == 0,
        w.read_count(1) == 0,
        forall|wanted: nat| w.read_count(wanted) == 0,
{
}

/// However many reads are made on an empty queue, each hands out nothing,
/// and the queue is in the end as it was at the start.
pub proof fn lemma_empty_reads_idle(w: Window, cap: nat, ops: Seq<Op>)
    requires
        w.available() == 0,
        forall|i: int| 0 <= i < ops.len() ==> is_read(#[trigger] ops[i]),
    ensures
        run(w, cap, ops) == w,
        all_given(w, cap, ops).len() == 0,
    decreases ops.len(),
{
    if ops.len() > 0 {
        lemma_empty_reads_idle(w, cap, ops.drop_last());
        lemma_empty_read_idle(w, cap, ops.last());
    }
}

/// On a queue without storage every operation takes in nothing, hands out
/// nothing and changes nothing, and nothing is available or vacant.
pub proof fn lemma_zero_capacity_step(w: Window, op: Op)
    requires
        w.fits(0),
    ensures
        w.available() == 0,
        w.vacant(0) == 0,
        forall|offered: nat| w.push_count(0, offered) == 0,
        forall|wanted: nat| w.read_count(wanted) == 0,
        w.taken(0, op).len() == 0,
        w.given(op).len() == 0,
        w.step(0, op) == w,
{
    assert(w.step(0, op).bytes =~= w.bytes);
}

/// A queue without storage stays empty over any history: no push takes a
/// byte in, no read hands one out, and nothing is ever available or vacant.
pub proof fn lemma_zero_capacity_run(w: Window, ops: Seq<Op>)
    requires
        w.fits(0),
    ensures
        run(w, 0, ops) == w,
        all_taken(w, 0, ops).len() == 0,
        all_given(w, 0, ops).len() == 0,
        run(w, 0, ops).available() == 0,
        run(w, 0, ops).vacant(0) == 0,
    decreases ops.len(),
{
    if ops.len() > 0 {
        lemma_zero_capacity_run(w, ops.drop_last());
        lemma_zero_capacity_step(w, ops.last());
    }
}

/// A block read on a queue that holds something gives every slot that is
/// not unread back to the pushes: the dead slots in front of the window and
/// the slots of the bytes just handed out are vacant afterwards, so that a
/// push is then cut short by the unread bytes alone.
pub proof fn lemma_block_read_reclaims(w: Window, cap: nat, wanted: nat)
    requires
        w.fits(cap),
        w.available() > 0,
    ensures
        w.after_read_many(wanted).head == 0,
        w.after_read_many(wanted).available() == w.available() - w.read_count(wanted),
        w.after_read_many(wanted).vacant(cap) == w.vacant(cap) + w.head + w.read_count(wanted),
        w.after_read_many(wanted).vacant(cap) + w.after_read_many(wanted).available() == cap,
        forall|offered: nat| #[trigger]
            w.after_read_many(wanted).push_count(cap, offered) == crate::window::lesser(
                offered,
                (cap - w.after_read_many(wanted).available()) as nat,
            ),
{
}

/// Sliding the window back changes no unread byte and leaves no dead slot.
pub proof fn lemma_compacted_keeps_bytes(w: Window, cap: nat)
    requires
        w.fits(cap),
    ensures
        w.compacted().bytes == w.bytes,
        w.compacted().fits(cap),
        w.compacted().vacant(cap) == w.vacant(cap) + w.head,
        w.compacted().vacant(cap) + w.compacted().available() == cap,
{
}

} // verus!
