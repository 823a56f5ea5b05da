//! The host-to-device handoff as a state machine: the operations of the two
//! ends, runs of operations, and what holds of every run.

use vstd::prelude::*;
use crate::chunk::{EmptyView, FullView};
use crate::h2d::{capacity_items, CurrentView, H2DView};
use crate::ids::{lemma_drop_last, lemma_push_fresh};
use crate::pools::{empty_ids, full_ids, used_total};

verus! {

/// One operation on a connection.
pub enum Op {
    /// The reader hands in an empty chunk.
    Submit(EmptyView),
    /// The writer asks for its writable region.
    Bytes,
    /// The writer copies bytes into its writable region.
    Write(Seq<u8>),
    /// The writer counts items as written.
    Produce(nat),
    /// The writer ends its stream.
    NotifyFinished,
    /// The reader takes all full chunks.
    Buffers,
}

impl H2DView {
    /// Whether the protocol allows `op` in this state. Writing and producing
    /// need a current chunk with room for what is written or produced.
    pub open spec fn enabled(self, op: Op) -> bool {
        match op {
            Op::Write(data) => self.writer.current is Some && data.len()
                <= self.writer.region().1,
            Op::Produce(amount) => self.writer.current is Some && self.writer.current->0.offset
                + amount <= capacity_items(self.writer.current->0.chunk, self.writer.item_size),
            _ => true,
        }
    }

    /// The state after `op`.
    pub open spec fn step(self, op: Op) -> H2DView {
        match op {
            Op::Submit(chunk) => self.submit(chunk),
            Op::Bytes => self.acquire(),
            Op::Write(data) => self.write(data),
            Op::Produce(amount) => self.produce(amount),
            Op::NotifyFinished => self.wind_up(),
            Op::Buffers => self.drain(),
        }
    }

    /// The payload bytes that `op` hands to the reader.
    pub open spec fn handed(self, op: Op) -> nat {
        match op {
            Op::Buffers => used_total(self.pools.full),
            _ => 0,
        }
    }

    /// The state after a run of operations, the first of `ops` first.
    pub open spec fn after(self, ops: Seq<Op>) -> H2DView
        decreases ops.len(),
    {
        if ops.len() == 0 {
            self
        } else {
            self.after(ops.drop_last()).step(ops.last())
        }
    }

    /// Whether the protocol allows each operation of the run where it stands.
    pub open spec fn admits(self, ops: Seq<Op>) -> bool
        decreases ops.len(),
    {
        ops.len() > 0 ==> self.admits(ops.drop_last()) && self.after(ops.drop_last()).enabled(
            ops.last(),
        )
    }

    /// All payload bytes that the run hands to the reader.
    pub open spec fn delivered(self, ops: Seq<Op>) -> nat
        decreases ops.len(),
    {
        if ops.len() == 0 {
            0
        } else {
            self.delivered(ops.drop_last()) + self.after(ops.drop_last()).handed(ops.last())
        }
    }

    /// Whether every chunk that the run hands in is, at that moment, nowhere
    /// on the connection.
    pub open spec fn submits_fresh(self, ops: Seq<Op>) -> bool
        decreases ops.len(),
    {
        ops.len() > 0 ==> self.submits_fresh(ops.drop_last()) && (ops.last() matches Op::Submit(
            chunk,
        ) ==> !self.after(ops.drop_last()).holds(chunk.id))
    }
}

impl H2DView {
    /// The full chunks that `op` hands to the reader, oldest first.
    pub open spec fn taken_by(self, op: Op) -> Seq<FullView> {
        match op {
            Op::Buffers => self.pools.full,
            _ => Seq::empty(),
        }
    }

    /// The full chunk that `op` makes the writer pass on, if it does.
    pub open spec fn passed_by(self, op: Op) -> Seq<FullView> {
        match op {
            Op::Produce(amount) => if self.completes(amount) {
                seq![
                    self.writer.current->0.chunk.filled(
                        capacity_items(self.writer.current->0.chunk, self.writer.item_size)
                            * self.writer.item_size,
                    ),
                ]
            } else {
                Seq::empty()
            },
            Op::NotifyFinished => if !self.writer.notified && self.writer.current is Some
                && self.writer.current->0.offset > 0 {
                seq![
                    self.writer.current->0.chunk.filled(
                        self.writer.current->0.offset * self.writer.item_size,
                    ),
                ]
            } else {
                Seq::empty()
            },
            _ => Seq::empty(),
        }
    }

    /// All full chunks that the run hands to the reader, in their order.
    pub open spec fn taken(self, ops: Seq<Op>) -> Seq<FullView>
        decreases ops.len(),
    {
        if ops.len() == 0 {
            Seq::empty()
        } else {
            self.taken(ops.drop_last()) + self.after(ops.drop_last()).taken_by(ops.last())
        }
    }

    /// All full chunks that the run makes the writer pass on, in their order.
    pub open spec fn passed(self, ops: Seq<Op>) -> Seq<FullView>
        decreases ops.len(),
    {
        if ops.len() == 0 {
            Seq::empty()
        } else {
            self.passed(ops.drop_last()) + self.after(ops.drop_last()).passed_by(ops.last())
        }
    }
}

/// Order. Over every run that the protocol allows, the chunks that the reader
/// took, followed by those that still wait, are the chunks that waited at the
/// start, followed by those that the writer passed on: each chunk arrives as
/// it was passed on, and in the order in which it was passed on.
pub proof fn lemma_order(s: H2DView, ops: Seq<Op>)
    requires
        s.admits(ops),
    ensures
        s.taken(ops) + s.after(ops).pools.full == s.pools.full + s.passed(ops),
    decreases ops.len(),
{
    if ops.len() == 0 {
        assert(s.taken(ops) + s.pools.full =~= s.pools.full + s.passed(ops));
    } else {
        let before = s.after(ops.drop_last());
        let op = ops.last();
        lemma_order(s, ops.drop_last());
        let taken = s.taken(ops.drop_last());
        let passed = s.passed(ops.drop_last());
        let waiting = before.pools.full;
        assert(taken + waiting == s.pools.full + passed);
        let more = before.passed_by(op);
        match op {
            Op::Buffers => {
                assert((taken + waiting) + Seq::<FullView>::empty() =~= taken + waiting);
                assert(passed + Seq::<FullView>::empty() =~= passed);
            },
            _ => {
                assert(before.step(op).pools.full =~= waiting + more);
                assert(taken + Seq::<FullView>::empty() =~= taken);
                assert(taken + (waiting + more) =~= (taken + waiting) + more);
                assert((s.pools.full + passed) + more =~= s.pools.full + (passed + more));
            },
        }
    }
}

/// The items that `op` produces.
pub open spec fn made(op: Op) -> nat {
    match op {
        Op::Produce(amount) => amount,
        _ => 0,
    }
}

/// All items that a run produces.
pub open spec fn produced(ops: Seq<Op>) -> nat
    decreases ops.len(),
{
    if ops.len() == 0 {
        0
    } else {
        produced(ops.drop_last()) + made(ops.last())
    }
}

/// Adding a full chunk adds its payload to the total.
pub proof fn lemma_used_total_push(chunks: Seq<FullView>, chunk: FullView)
    ensures
        used_total(chunks.push(chunk)) == used_total(chunks) + chunk.used,
{
    assert(chunks.push(chunk).drop_last() =~= chunks);
    assert(chunks.push(chunk).last() == chunk);
}

/// Every allowed operation keeps the connection well formed and the item
/// size as it is.
pub proof fn lemma_step_wf(s: H2DView, op: Op)
    requires
        s.wf(),
        s.enabled(op),
    ensures
        s.step(op).wf(),
        s.step(op).writer.item_size == s.writer.item_size,
{
    let isz = s.writer.item_size;
    match op {
        Op::Produce(amount) => {
            let c = s.writer.current->0;
            let cap = capacity_items(c.chunk, isz);
            if c.offset + amount == cap {
                lemma_capacity_fits(c.chunk.bytes.len(), isz);
                let flushed = s.flush(cap * isz);
                assert(flushed.pools.wf());
                assert(flushed.acquire().wf());
            }
        },
        Op::NotifyFinished => {
            if !s.writer.notified && s.writer.current is Some {
                let c = s.writer.current->0;
                if c.offset > 0 {
                    lemma_capacity_fits(c.chunk.bytes.len(), isz);
                    assert(c.offset * isz <= capacity_items(c.chunk, isz) * isz)
                        by (nonlinear_arith)
                        requires
                            c.offset <= capacity_items(c.chunk, isz),
                    ;
                }
            }
        },
        Op::Write(data) => {
            let c = s.writer.current->0;
            assert(s.write(data).writer.current->0.chunk.bytes.len() == c.chunk.bytes.len());
        },
        _ => {},
    }
}

proof fn lemma_capacity_fits(len: nat, item_size: nat)
    requires
        item_size > 0,
    ensures
        (len / item_size) * item_size <= len,
{
    assert((len / item_size) * item_size <= len) by (nonlinear_arith)
        requires
            item_size > 0,
    ;
}

/// One operation neither makes nor loses payload: what is buffered afterwards,
/// with what the reader was handed, is what was buffered before, with what
/// the writer produced.
pub proof fn lemma_step_conserves(s: H2DView, op: Op)
    requires
        s.wf(),
        s.enabled(op),
    ensures
        s.step(op).buffered() + s.handed(op) == s.buffered() + made(op) * s.writer.item_size,
{
    let isz = s.writer.item_size;
    match op {
        Op::Produce(amount) => {
            let c = s.writer.current->0;
            let cap = capacity_items(c.chunk, isz);
            assert((c.offset + amount) * isz == c.offset * isz + amount * isz)
                by (nonlinear_arith);
            if c.offset + amount == cap {
                lemma_used_total_push(s.pools.full, c.chunk.filled(cap * isz));
                assert(s.flush(cap * isz).acquire().writer.pending_bytes() == 0) by {
                    assert(0 * isz == 0) by (nonlinear_arith);
                }
            }
        },
        Op::NotifyFinished => {
            if !s.writer.notified && s.writer.current is Some {
                let c = s.writer.current->0;
                if c.offset > 0 {
                    lemma_used_total_push(s.pools.full, c.chunk.filled(c.offset * isz));
                } else {
                    assert(0 * isz == 0) by (nonlinear_arith);
                }
            }
        },
        Op::Bytes => {
            assert(s.acquire().writer.pending_bytes() == s.writer.pending_bytes()) by {
                assert(0 * isz == 0) by (nonlinear_arith);
            }
        },
        Op::Buffers => {
            assert(used_total(Seq::<FullView>::empty()) == 0);
        },
        _ => {},
    }
}

/// Conservation. Over every run that the protocol allows, the payload handed
/// to the reader, with what is still buffered at the end, is what was buffered
/// at the start, with the items produced, counted in bytes.
pub proof fn lemma_conservation(s: H2DView, ops: Seq<Op>)
    requires
        s.wf(),
        s.admits(ops),
    ensures
        s.after(ops).wf(),
        s.after(ops).writer.item_size == s.writer.item_size,
        s.after(ops).buffered() + s.delivered(ops) == s.buffered() + produced(ops)
            * s.writer.item_size,
    decreases ops.len(),
{
    if ops.len() > 0 {
        let before = s.after(ops.drop_last());
        lemma_conservation(s, ops.drop_last());
        lemma_step_wf(before, ops.last());
        lemma_step_conserves(before, ops.last());
        assert((produced(ops.drop_last()) + made(ops.last())) * s.writer.item_size == produced(
            ops.drop_last(),
        ) * s.writer.item_size + made(ops.last()) * s.writer.item_size) by (nonlinear_arith);
    } else {
        assert(0 * s.writer.item_size == 0) by (nonlinear_arith);
    }
}

/// A run that starts with nothing buffered and ends with the writer ending
/// its stream, for the first time, and the reader taking what is there has
/// handed over every item that was produced, and nothing else.
pub proof fn lemma_drained_run_delivers_all(s: H2DView, ops: Seq<Op>)
    requires
        s.wf(),
        s.buffered() == 0,
        s.admits(ops),
        !s.after(ops).writer.notified,
    ensures
        s.delivered(ops + seq![Op::NotifyFinished, Op::Buffers]) == produced(ops)
            * s.writer.item_size,
        s.after(ops + seq![Op::NotifyFinished, Op::Buffers]).buffered() == 0,
{
    let closing = ops.push(Op::NotifyFinished);
    let whole = closing.push(Op::Buffers);
    assert(whole =~= ops + seq![Op::NotifyFinished, Op::Buffers]);
    assert(closing.drop_last() =~= ops);
    assert(whole.drop_last() =~= closing);
    assert(s.admits(closing));
    assert(s.admits(whole));
    lemma_conservation(s, whole);
    let end = s.after(whole);
    assert(end == s.after(closing).drain());
    let wound = s.after(closing);
    assert(wound == s.after(ops).wind_up());
    assert(wound.writer.current is None);
    assert(end.writer.pending_bytes() == 0);
    assert(used_total(end.pools.full) == 0);
    assert(produced(whole) == produced(ops)) by {
        assert(produced(closing) == produced(ops) + made(Op::NotifyFinished));
        assert(produced(whole) == produced(closing) + made(Op::Buffers));
    }
}

/// A stream that is ended stays ended, whatever either end does, and the
/// mark that `finish` sets is no operation's to change.
pub proof fn lemma_ended_stays(s: H2DView, ops: Seq<Op>)
    ensures
        s.writer.notified ==> s.after(ops).writer.notified,
        s.after(ops).writer.finished == s.writer.finished,
        s.after(ops).writer.reader == s.writer.reader,
    decreases ops.len(),
{
    if ops.len() > 0 {
        lemma_ended_stays(s, ops.drop_last());
    }
}

proof fn lemma_acquire_exclusive(s: H2DView)
    requires
        s.exclusive(),
    ensures
        s.acquire().exclusive(),
{
    if s.writer.current is None && s.pools.empty.len() > 0 {
        let empty = empty_ids(s.pools.empty);
        assert(empty_ids(s.pools.empty.drop_last()) =~= empty.drop_last());
        assert(empty.last() == s.pools.empty.last().id);
        lemma_drop_last(empty);
    }
}

proof fn lemma_flush_exclusive(s: H2DView, used: nat)
    requires
        s.exclusive(),
        s.writer.current is Some,
    ensures
        s.flush(used).exclusive(),
{
    let c = s.writer.current->0;
    let full = full_ids(s.pools.full);
    assert(full_ids(s.pools.full.push(c.chunk.filled(used))) =~= full.push(c.chunk.id));
    lemma_push_fresh(full, c.chunk.id);
}

/// Exclusive ownership, one operation at a time. If no chunk is in two places
/// and a chunk handed in is not on the connection already, then no chunk is in
/// two places afterwards.
pub proof fn lemma_step_exclusive(s: H2DView, op: Op)
    requires
        s.exclusive(),
        s.enabled(op),
        op matches Op::Submit(chunk) ==> !s.holds(chunk.id),
    ensures
        s.step(op).exclusive(),
{
    let isz = s.writer.item_size;
    match op {
        Op::Submit(chunk) => {
            let empty = empty_ids(s.pools.empty);
            assert(empty_ids(s.pools.empty.push(chunk)) =~= empty.push(chunk.id));
            lemma_push_fresh(empty, chunk.id);
        },
        Op::Bytes => {
            lemma_acquire_exclusive(s);
        },
        Op::Write(data) => {},
        Op::Produce(amount) => {
            let c = s.writer.current->0;
            let cap = capacity_items(c.chunk, isz);
            if c.offset + amount == cap {
                lemma_flush_exclusive(s, cap * isz);
                lemma_acquire_exclusive(s.flush(cap * isz));
            }
        },
        Op::NotifyFinished => {
            if !s.writer.notified && s.writer.current is Some {
                let c = s.writer.current->0;
                if c.offset > 0 {
                    lemma_flush_exclusive(s, c.offset * isz);
                }
            }
        },
        Op::Buffers => {
            assert(full_ids(Seq::<FullView>::empty()) =~= Seq::<u64>::empty());
        },
    }
}

/// Exclusive ownership. Over every run that the protocol allows and in which
/// each chunk handed in is, at that moment, nowhere on the connection, no
/// chunk is ever in both pools, twice in one, or in a pool while it is being
/// filled.
pub proof fn lemma_exclusive(s: H2DView, ops: Seq<Op>)
    requires
        s.exclusive(),
        s.admits(ops),
        s.submits_fresh(ops),
    ensures
        s.after(ops).exclusive(),
    decreases ops.len(),
{
    if ops.len() > 0 {
        lemma_exclusive(s, ops.drop_last());
        lemma_step_exclusive(s.after(ops.drop_last()), ops.last());
    }
}

/// Backpressure. A writer without a chunk, facing an empty pool, is given a
/// region of no bytes and stays as it is. After a chunk was handed in, it is
/// given that whole chunk: as many bytes as make up the items that fit.
pub proof fn lemma_backpressure(s: H2DView, chunk: EmptyView)
    requires
        s.writer.wf(),
        s.writer.current is None,
        s.pools.empty.len() == 0,
    ensures
        s.acquire() == s,
        s.acquire().writer.region() == (0nat, 0nat),
        s.submit(chunk).acquire().writer.current == Some(CurrentView { chunk, offset: 0 }),
        s.submit(chunk).acquire().writer.region() == (
            0nat,
            capacity_items(chunk, s.writer.item_size) * s.writer.item_size,
        ),
        chunk.bytes.len() >= s.writer.item_size ==> s.submit(chunk).acquire().writer.region().1
            > 0,
{
    let isz = s.writer.item_size;
    let cap = capacity_items(chunk, isz);
    assert(s.pools.empty.push(chunk).last() == chunk);
    assert(0 * isz == 0) by (nonlinear_arith);
    assert((cap - 0) * isz == cap * isz) by (nonlinear_arith);
    if chunk.bytes.len() >= isz {
        assert(cap >= 1) by (nonlinear_arith)
            requires
                cap == chunk.bytes.len() / isz,
                chunk.bytes.len() >= isz,
                isz > 0,
        ;
        assert(cap * isz > 0) by (nonlinear_arith)
            requires
                cap >= 1,
                isz > 0,
        ;
    }
}

/// Ending the stream is idempotent: the second time changes nothing and has
/// no message, whether or not the writer is marked finished.
pub proof fn lemma_wind_up_idempotent(s: H2DView)
    ensures
        s.wind_up().wind_up() == s.wind_up(),
        s.wind_up().writer.notified,
        s.wind_up().writer.farewell() is None,
        s.wind_up().writer.finished == s.writer.finished,
{
}

/// Finish handshake. A writer that has not ended its stream and holds a
/// partly filled chunk passes on, when it ends the stream, exactly one more
/// full chunk: the one it held, with as many payload bytes as the items
/// written take, and has `StreamInputDone` for its reader. It holds no chunk
/// afterwards; ending the stream again passes on nothing and has no message.
pub proof fn lemma_finish_handshake(s: H2DView)
    requires
        s.wf(),
        !s.writer.notified,
        s.writer.current is Some,
        s.writer.current->0.offset > 0,
    ensures
        s.writer.farewell() == Some(
            crate::message::AsyncMessage::StreamInputDone { input_id: s.writer.reader->0 },
        ),
        s.wind_up().writer.farewell() is None,
        s.wind_up().pools.full == s.pools.full.push(
            FullView {
                id: s.writer.current->0.chunk.id,
                bytes: s.writer.current->0.chunk.bytes,
                used: s.writer.current->0.offset * s.writer.item_size,
            },
        ),
        s.wind_up().pools.full.len() == s.pools.full.len() + 1,
        s.wind_up().pools.full.last().used == s.writer.current->0.offset * s.writer.item_size,
        s.wind_up().pools.empty == s.pools.empty,
        s.wind_up().writer.current is None,
        s.wind_up().wind_up() == s.wind_up(),
        s.wind_up().wf(),
{
    lemma_step_wf(s, Op::NotifyFinished);
}

} // verus!
