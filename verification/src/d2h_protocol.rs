//! The device-to-host handoff as a state machine: the operations of the two
//! ends, runs of operations, and what holds of every run.

use vstd::prelude::*;
use crate::chunk::{EmptyView, FullView};
use crate::d2h::{items_total, payload_items, D2HView};
use crate::ids::{lemma_drop_first, lemma_push_fresh};
use crate::pools::{empty_ids, full_ids};

verus! {

/// One operation on a connection.
pub enum Op {
    /// The writer hands over a full chunk.
    Submit(FullView),
    /// The writer takes all empty chunks back.
    Buffers,
    /// The reader asks for its readable region.
    Bytes,
    /// The reader counts items as consumed.
    Consume(nat),
}

impl D2HView {
    /// Whether the protocol allows `op` in this state. A chunk handed over
    /// keeps its payload within its capacity; consuming needs a current chunk
    /// that carries as many unconsumed items.
    pub open spec fn enabled(self, op: Op) -> bool {
        match op {
            Op::Submit(chunk) => chunk.wf(),
            Op::Consume(amount) => self.reader.current is Some && self.reader.current->0.offset
                + amount <= payload_items(self.reader.current->0.chunk, self.reader.item_size),
            _ => true,
        }
    }

    /// The state after `op`.
    pub open spec fn step(self, op: Op) -> D2HView {
        match op {
            Op::Submit(chunk) => self.submit(chunk),
            Op::Buffers => self.reclaim(),
            Op::Bytes => self.acquire(),
            Op::Consume(amount) => self.consume(amount),
        }
    }

    /// The state after a run of operations, the first of `ops` first.
    pub open spec fn after(self, ops: Seq<Op>) -> D2HView
        decreases ops.len(),
    {
        if ops.len() == 0 {
            self
        } else {
            self.after(ops.drop_last()).step(ops.last())
        }
    }

    /// Whether the protocol allows each operation of the run where it stands.
    pub open spec fn admits(self, ops: Seq<Op>) -> bool
        decreases ops.len(),
    {
        ops.len() > 0 ==> self.admits(ops.drop_last()) && self.after(ops.drop_last()).enabled(
            ops.last(),
        )
    }

    /// Whether every chunk that the run hands over is, at that moment,
    /// nowhere on the connection.
    pub open spec fn submits_fresh(self, ops: Seq<Op>) -> bool
        decreases ops.len(),
    {
        ops.len() > 0 ==> self.submits_fresh(ops.drop_last()) && (ops.last() matches Op::Submit(
            chunk,
        ) ==> !self.after(ops.drop_last()).holds(chunk.id))
    }
}

/// The whole items that `op` hands over, for items of `item_size` bytes.
pub open spec fn brought(op: Op, item_size: nat) -> nat {
    match op {
        Op::Submit(chunk) => payload_items(chunk, item_size),
        _ => 0,
    }
}

/// The items that `op` consumes.
pub open spec fn eaten(op: Op) -> nat {
    match op {
        Op::Consume(amount) => amount,
        _ => 0,
    }
}

/// All whole items that a run hands over.
pub open spec fn submitted(ops: Seq<Op>, item_size: nat) -> nat
    decreases ops.len(),
{
    if ops.len() == 0 {
        0
    } else {
        submitted(ops.drop_last(), item_size) + brought(ops.last(), item_size)
    }
}

/// All items that a run consumes.
pub open spec fn consumed(ops: Seq<Op>) -> nat
    decreases ops.len(),
{
    if ops.len() == 0 {
        0
    } else {
        consumed(ops.drop_last()) + eaten(ops.last())
    }
}

/// Adding a full chunk adds its whole items to the total.
pub proof fn lemma_items_total_push(chunks: Seq<FullView>, chunk: FullView, item_size: nat)
    ensures
        items_total(chunks.push(chunk), item_size) == items_total(chunks, item_size)
            + payload_items(chunk, item_size),
{
    assert(chunks.push(chunk).drop_last() =~= chunks);
    assert(chunks.push(chunk).last() == chunk);
}

/// The total counts the oldest chunk like any other.
pub proof fn lemma_items_total_first(chunks: Seq<FullView>, item_size: nat)
    requires
        chunks.len() > 0,
    ensures
        items_total(chunks, item_size) == payload_items(chunks.first(), item_size) + items_total(
            chunks.drop_first(),
            item_size,
        ),
    decreases chunks.len(),
{
    if chunks.len() == 1 {
        assert(chunks.drop_last() =~= Seq::<FullView>::empty());
        assert(chunks.drop_first() =~= Seq::<FullView>::empty());
        assert(items_total(chunks.drop_last(), item_size) == 0);
    } else {
        lemma_items_total_first(chunks.drop_last(), item_size);
        assert(chunks.drop_last().drop_first() =~= chunks.drop_first().drop_last());
        assert(chunks.drop_last().first() == chunks.first());
        assert(chunks.drop_first().last() == chunks.last());
    }
}

/// Every allowed operation keeps the connection well formed and the item
/// size as it is.
pub proof fn lemma_step_wf(s: D2HView, op: Op)
    requires
        s.wf(),
        s.enabled(op),
    ensures
        s.step(op).wf(),
        s.step(op).reader.item_size == s.reader.item_size,
{
    match op {
        Op::Consume(amount) => {
            let c = s.reader.current->0;
            if c.offset + amount == payload_items(c.chunk, s.reader.item_size) {
                assert(s.release().acquire().wf());
            }
        },
        _ => {},
    }
}

/// One operation neither makes nor loses items: what is stored afterwards,
/// with what the reader consumed, is what was stored before, with what the
/// writer handed over.
pub proof fn lemma_step_conserves(s: D2HView, op: Op)
    requires
        s.wf(),
        s.enabled(op),
    ensures
        s.step(op).stored() + eaten(op) == s.stored() + brought(op, s.reader.item_size),
{
    let isz = s.reader.item_size;
    match op {
        Op::Submit(chunk) => {
            lemma_items_total_push(s.pools.full, chunk, isz);
        },
        Op::Buffers => {},
        Op::Bytes => {
            if s.reader.current is None && s.pools.full.len() > 0 {
                lemma_items_total_first(s.pools.full, isz);
            }
        },
        Op::Consume(amount) => {
            let c = s.reader.current->0;
            if c.offset + amount == payload_items(c.chunk, isz) {
                let released = s.release();
                if released.pools.full.len() > 0 {
                    lemma_items_total_first(released.pools.full, isz);
                }
            }
        },
    }
}

/// Conservation. Over every run that the protocol allows, the items consumed,
/// with what is still stored at the end, are what was stored at the start,
/// with the whole items handed over.
pub proof fn lemma_conservation(s: D2HView, ops: Seq<Op>)
    requires
        s.wf(),
        s.admits(ops),
    ensures
        s.after(ops).wf(),
        s.after(ops).reader.item_size == s.reader.item_size,
        s.after(ops).stored() + consumed(ops) == s.stored() + submitted(ops, s.reader.item_size),
    decreases ops.len(),
{
    if ops.len() > 0 {
        let before = s.after(ops.drop_last());
        lemma_conservation(s, ops.drop_last());
        lemma_step_wf(before, ops.last());
        lemma_step_conserves(before, ops.last());
    }
}

/// A run that starts with nothing stored and ends with nothing left to read
/// has consumed every whole item that was handed over, and nothing else.
pub proof fn lemma_idle_run_consumed_all(s: D2HView, ops: Seq<Op>)
    requires
        s.wf(),
        s.stored() == 0,
        s.admits(ops),
        s.after(ops).idle(),
    ensures
        consumed(ops) == submitted(ops, s.reader.item_size),
{
    lemma_conservation(s, ops);
    assert(s.after(ops).pools.full =~= Seq::<FullView>::empty());
}

proof fn lemma_acquire_exclusive(s: D2HView)
    requires
        s.exclusive(),
    ensures
        s.acquire().exclusive(),
{
    if s.reader.current is None && s.pools.full.len() > 0 {
        let full = full_ids(s.pools.full);
        assert(full_ids(s.pools.full.drop_first()) =~= full.drop_first());
        assert(full.first() == s.pools.full.first().id);
        lemma_drop_first(full);
    }
}

proof fn lemma_release_exclusive(s: D2HView)
    requires
        s.exclusive(),
        s.reader.current is Some,
    ensures
        s.release().exclusive(),
{
    let c = s.reader.current->0;
    let empty = empty_ids(s.pools.empty);
    assert(empty_ids(s.pools.empty.push(c.chunk.emptied())) =~= empty.push(c.chunk.id));
    lemma_push_fresh(empty, c.chunk.id);
}

/// Exclusive ownership, one operation at a time. If no chunk is in two places
/// and a chunk handed over is not on the connection already, then no chunk is
/// in two places afterwards.
pub proof fn lemma_step_exclusive(s: D2HView, op: Op)
    requires
        s.exclusive(),
        s.enabled(op),
        op matches Op::Submit(chunk) ==> !s.holds(chunk.id),
    ensures
        s.step(op).exclusive(),
{
    match op {
        Op::Submit(chunk) => {
            let full = full_ids(s.pools.full);
            assert(full_ids(s.pools.full.push(chunk)) =~= full.push(chunk.id));
            lemma_push_fresh(full, chunk.id);
        },
        Op::Buffers => {
            assert(empty_ids(Seq::<EmptyView>::empty()) =~= Seq::<u64>::empty());
        },
        Op::Bytes => {
            lemma_acquire_exclusive(s);
        },
        Op::Consume(amount) => {
            let c = s.reader.current->0;
            if c.offset + amount == payload_items(c.chunk, s.reader.item_size) {
                lemma_release_exclusive(s);
                lemma_acquire_exclusive(s.release());
            }
        },
    }
}

/// Exclusive ownership. Over every run that the protocol allows and in which
/// each chunk handed over is, at that moment, nowhere on the connection, no
/// chunk is ever in both pools, twice in one, or in a pool while it is being
/// consumed.
pub proof fn lemma_exclusive(s: D2HView, ops: Seq<Op>)
    requires
        s.exclusive(),
        s.admits(ops),
        s.submits_fresh(ops),
    ensures
        s.after(ops).exclusive(),
    decreases ops.len(),
{
    if ops.len() > 0 {
        lemma_exclusive(s, ops.drop_last());
        lemma_step_exclusive(s.after(ops.drop_last()), ops.last());
    }
}

} // verus!
