//! The chunk pool as a state machine: a host writer and a host reader on the
//! same pools, runs of their operations, and what holds of every run.

use vstd::prelude::*;
use crate::d2h::{items_total, payload_items, D2HView, ReaderView};
use crate::d2h_protocol::{lemma_items_total_first, lemma_items_total_push};
use crate::h2d::{capacity_items, H2DView, WriterView};
use crate::ids::{lemma_drop_first, lemma_drop_last, lemma_push_fresh};
use crate::pools::{empty_ids, full_ids, PoolsView};

verus! {

/// A chunk pool: its writer, its reader, and the pools between them.
pub struct SlabView {
    pub writer: WriterView,
    pub reader: ReaderView,
    pub pools: PoolsView,
}

/// One operation on a chunk pool.
pub enum Op {
    /// The writer asks for its writable region.
    WriterBytes,
    /// The writer copies bytes into its writable region.
    Write(Seq<u8>),
    /// The writer counts items as written.
    Produce(nat),
    /// The writer ends its stream.
    NotifyFinished,
    /// The reader asks for its readable region.
    ReaderBytes,
    /// The reader counts items as consumed.
    Consume(nat),
}

impl SlabView {
    /// The pool as its writer sees it.
    pub open spec fn writing(self) -> H2DView {
        H2DView { writer: self.writer, pools: self.pools }
    }

    /// The pool as its reader sees it.
    pub open spec fn reading(self) -> D2HView {
        D2HView { reader: self.reader, pools: self.pools }
    }

    /// The pool after its writer acted.
    pub open spec fn wrote(self, after: H2DView) -> SlabView {
        SlabView { writer: after.writer, pools: after.pools, ..self }
    }

    /// The pool after its reader acted.
    pub open spec fn red(self, after: D2HView) -> SlabView {
        SlabView { reader: after.reader, pools: after.pools, ..self }
    }

    /// Both ends are well formed and count items of the same size, and every
    /// full chunk keeps its payload within its capacity.
    pub open spec fn wf(self) -> bool {
        &&& self.writer.wf()
        &&& self.reader.wf()
        &&& self.pools.wf()
        &&& self.writer.item_size == self.reader.item_size
    }

    /// Whether the protocol allows `op` in this state.
    pub open spec fn enabled(self, op: Op) -> bool {
        match op {
            Op::Write(data) => self.writer.current is Some && data.len()
                <= self.writer.region().1,
            Op::Produce(amount) => self.writer.current is Some && self.writer.current->0.offset
                + amount <= capacity_items(self.writer.current->0.chunk, self.writer.item_size),
            Op::Consume(amount) => self.reader.current is Some && self.reader.current->0.offset
                + amount <= payload_items(self.reader.current->0.chunk, self.reader.item_size),
            _ => true,
        }
    }

    /// The state after `op`.
    pub open spec fn step(self, op: Op) -> SlabView {
        match op {
            Op::WriterBytes => self.wrote(self.writing().acquire()),
            Op::Write(data) => self.wrote(self.writing().write(data)),
            Op::Produce(amount) => self.wrote(self.writing().produce(amount)),
            Op::NotifyFinished => self.wrote(self.writing().wind_up()),
            Op::ReaderBytes => self.red(self.reading().acquire()),
            Op::Consume(amount) => self.red(self.reading().consume(amount)),
        }
    }

    /// The state after a run of operations, the first of `ops` first.
    pub open spec fn after(self, ops: Seq<Op>) -> SlabView
        decreases ops.len(),
    {
        if ops.len() == 0 {
            self
        } else {
            self.after(ops.drop_last()).step(ops.last())
        }
    }

    /// Whether the protocol allows each operation of the run where it stands.
    pub open spec fn admits(self, ops: Seq<Op>) -> bool
        decreases ops.len(),
    {
        ops.len() > 0 ==> self.admits(ops.drop_last()) && self.after(ops.drop_last()).enabled(
            ops.last(),
        )
    }

    /// No chunk is in two places: no identity occurs twice in a pool, none
    /// occurs in both pools, the chunk being filled and the chunk being
    /// consumed are in neither, and they are not the same chunk.
    pub open spec fn exclusive(self) -> bool {
        let empty = empty_ids(self.pools.empty);
        let full = full_ids(self.pools.full);
        &&& empty.no_duplicates()
        &&& full.no_duplicates()
        &&& forall|id: u64| !(empty.contains(id) && full.contains(id))
        &&& self.writer.current matches Some(c) ==> !empty.contains(c.chunk.id) && !full.contains(
            c.chunk.id,
        )
        &&& self.reader.current matches Some(c) ==> !empty.contains(c.chunk.id) && !full.contains(
            c.chunk.id,
        )
        &&& self.writer.current is Some && self.reader.current is Some
            ==> self.writer.current->0.chunk.id != self.reader.current->0.chunk.id
    }

    /// Items that were produced and are not consumed yet: those the writer
    /// has written into its chunk, those in the full pool, and those the
    /// reader has before it.
    pub open spec fn held(self) -> nat {
        (match self.writer.current {
            Some(c) => c.offset,
            None => 0,
        }) + items_total(self.pools.full, self.reader.item_size) + self.reader.pending_items()
    }
}

/// The items that `op` produces.
pub open spec fn made(op: Op) -> nat {
    match op {
        Op::Produce(amount) => amount,
        _ => 0,
    }
}

/// The items that `op` consumes.
pub open spec fn eaten(op: Op) -> nat {
    match op {
        Op::Consume(amount) => amount,
        _ => 0,
    }
}

/// All items that a run produces.
pub open spec fn produced(ops: Seq<Op>) -> nat
    decreases ops.len(),
{
    if ops.len() == 0 {
        0
    } else {
        produced(ops.drop_last()) + made(ops.last())
    }
}

/// All items that a run consumes.
pub open spec fn consumed(ops: Seq<Op>) -> nat
    decreases ops.len(),
{
    if ops.len() == 0 {
        0
    } else {
        consumed(ops.drop_last()) + eaten(ops.last())
    }
}

proof fn lemma_whole_items(items: nat, item_size: nat)
    requires
        item_size > 0,
    ensures
        (items * item_size) / item_size == items,
{
    assert((items * item_size) / item_size == items) by (nonlinear_arith)
        requires
            item_size > 0,
    ;
}

proof fn lemma_fits(len: nat, item_size: nat, offset: nat)
    requires
        item_size > 0,
        offset <= len / item_size,
    ensures
        offset * item_size <= len,
{
    assert(offset * item_size <= len) by (nonlinear_arith)
        requires
            item_size > 0,
            offset <= len / item_size,
    ;
}

/// Every allowed operation keeps the chunk pool well formed.
pub proof fn lemma_step_wf(s: SlabView, op: Op)
    requires
        s.wf(),
        s.enabled(op),
    ensures
        s.step(op).wf(),
{
    let isz = s.writer.item_size;
    match op {
        Op::WriterBytes => {},
        Op::Write(data) => {},
        Op::Produce(amount) => {
            let c = s.writer.current->0;
            lemma_fits(c.chunk.bytes.len(), isz, capacity_items(c.chunk, isz));
        },
        Op::NotifyFinished => {
            if s.writer.current is Some {
                let c = s.writer.current->0;
                lemma_fits(c.chunk.bytes.len(), isz, c.offset);
            }
        },
        Op::ReaderBytes => {
            if s.reader.current is None && s.pools.full.len() > 0 {
                assert(s.pools.full[0].wf());
            }
        },
        Op::Consume(amount) => {
            let released = s.reading().release();
            if released.pools.full.len() > 0 {
                assert(s.pools.full[0].wf());
            }
        },
    }
}

/// One operation neither makes nor loses items: what is held afterwards,
/// with what the reader consumed, is what was held before, with what the
/// writer produced.
pub proof fn lemma_step_conserves(s: SlabView, op: Op)
    requires
        s.wf(),
        s.enabled(op),
    ensures
        s.step(op).held() + eaten(op) == s.held() + made(op),
        s.step(op).reader.item_size == s.reader.item_size,
{
    let isz = s.writer.item_size;
    match op {
        Op::WriterBytes => {},
        Op::Write(data) => {},
        Op::Produce(amount) => {
            let c = s.writer.current->0;
            let cap = capacity_items(c.chunk, isz);
            if c.offset + amount == cap {
                lemma_items_total_push(s.pools.full, c.chunk.filled(cap * isz), isz);
                lemma_whole_items(cap, isz);
            }
        },
        Op::NotifyFinished => {
            if !s.writer.notified && s.writer.current is Some {
                let c = s.writer.current->0;
                if c.offset > 0 {
                    lemma_items_total_push(s.pools.full, c.chunk.filled(c.offset * isz), isz);
                    lemma_whole_items(c.offset, isz);
                }
            }
        },
        Op::ReaderBytes => {
            if s.reader.current is None && s.pools.full.len() > 0 {
                lemma_items_total_first(s.pools.full, isz);
            }
        },
        Op::Consume(amount) => {
            let c = s.reader.current->0;
            if c.offset + amount == payload_items(c.chunk, isz) {
                let released = s.reading().release();
                if released.pools.full.len() > 0 {
                    lemma_items_total_first(released.pools.full, isz);
                }
            }
        },
    }
}

/// Conservation. Over every run that the protocol allows, the items consumed,
/// with what is still held at the end, are what was held at the start, with
/// the items produced.
pub proof fn lemma_conservation(s: SlabView, ops: Seq<Op>)
    requires
        s.wf(),
        s.admits(ops),
    ensures
        s.after(ops).wf(),
        s.after(ops).held() + consumed(ops) == s.held() + produced(ops),
    decreases ops.len(),
{
    if ops.len() > 0 {
        let before = s.after(ops.drop_last());
        lemma_conservation(s, ops.drop_last());
        lemma_step_wf(before, ops.last());
        lemma_step_conserves(before, ops.last());
    }
}

proof fn lemma_writer_acquire_exclusive(s: SlabView)
    requires
        s.exclusive(),
    ensures
        s.wrote(s.writing().acquire()).exclusive(),
{
    if s.writer.current is None && s.pools.empty.len() > 0 {
        let empty = empty_ids(s.pools.empty);
        assert(empty_ids(s.pools.empty.drop_last()) =~= empty.drop_last());
        assert(empty.last() == s.pools.empty.last().id);
        lemma_drop_last(empty);
    }
}

proof fn lemma_flush_exclusive(s: SlabView, used: nat)
    requires
        s.exclusive(),
        s.writer.current is Some,
    ensures
        s.wrote(s.writing().flush(used)).exclusive(),
{
    let c = s.writer.current->0;
    let full = full_ids(s.pools.full);
    assert(full_ids(s.pools.full.push(c.chunk.filled(used))) =~= full.push(c.chunk.id));
    lemma_push_fresh(full, c.chunk.id);
}

proof fn lemma_reader_acquire_exclusive(s: SlabView)
    requires
        s.exclusive(),
    ensures
        s.red(s.reading().acquire()).exclusive(),
{
    if s.reader.current is None && s.pools.full.len() > 0 {
        let full = full_ids(s.pools.full);
        assert(full_ids(s.pools.full.drop_first()) =~= full.drop_first());
        assert(full.first() == s.pools.full.first().id);
        lemma_drop_first(full);
    }
}

proof fn lemma_release_exclusive(s: SlabView)
    requires
        s.exclusive(),
        s.reader.current is Some,
    ensures
        s.red(s.reading().release()).exclusive(),
{
    let c = s.reader.current->0;
    let empty = empty_ids(s.pools.empty);
    assert(empty_ids(s.pools.empty.push(c.chunk.emptied())) =~= empty.push(c.chunk.id));
    lemma_push_fresh(empty, c.chunk.id);
}

/// Exclusive ownership, one operation at a time: no operation of either end
/// puts a chunk in two places.
pub proof fn lemma_step_exclusive(s: SlabView, op: Op)
    requires
        s.exclusive(),
        s.enabled(op),
    ensures
        s.step(op).exclusive(),
{
    let isz = s.writer.item_size;
    match op {
        Op::WriterBytes => {
            lemma_writer_acquire_exclusive(s);
        },
        Op::Write(data) => {},
        Op::Produce(amount) => {
            let c = s.writer.current->0;
            let cap = capacity_items(c.chunk, isz);
            if c.offset + amount == cap {
                lemma_flush_exclusive(s, cap * isz);
                let flushed = s.wrote(s.writing().flush(cap * isz));
                lemma_writer_acquire_exclusive(flushed);
                assert(flushed.writing().acquire() == s.writing().flush(cap * isz).acquire());
            }
        },
        Op::NotifyFinished => {
            if !s.writer.notified && s.writer.current is Some {
                let c = s.writer.current->0;
                if c.offset > 0 {
                    lemma_flush_exclusive(s, c.offset * isz);
                }
            }
        },
        Op::ReaderBytes => {
            lemma_reader_acquire_exclusive(s);
        },
        Op::Consume(amount) => {
            let c = s.reader.current->0;
            if c.offset + amount == payload_items(c.chunk, s.reader.item_size) {
                lemma_release_exclusive(s);
                let released = s.red(s.reading().release());
                lemma_reader_acquire_exclusive(released);
                assert(released.reading().acquire() == s.reading().release().acquire());
            }
        },
    }
}

/// Exclusive ownership. Over every run that the protocol allows, no chunk is
/// ever in both pools, twice in one, in a pool while an end holds it, or
/// held by both ends.
pub proof fn lemma_exclusive(s: SlabView, ops: Seq<Op>)
    requires
        s.exclusive(),
        s.admits(ops),
    ensures
        s.after(ops).exclusive(),
    decreases ops.len(),
{
    if ops.len() > 0 {
        lemma_exclusive(s, ops.drop_last());
        lemma_step_exclusive(s.after(ops.drop_last()), ops.last());
    }
}

} // verus!
