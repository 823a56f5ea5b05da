//! The ring in host memory: one allocation that the writer fills behind the
//! reader, wrapping around at its end. Positions and amounts are counted in
//! items, regions in bytes.

use vstd::prelude::*;
use crate::buffer::{
    BufferBuilder, BufferReader, BufferWriter, ReaderView as AnyReaderView, Store, StoreState,
    WriterView as AnyWriterView,
};
use crate::chunk::overwrite;
use crate::message::AsyncMessage;

verus! {

/// Items that a ring made with `Circular::new` holds.
pub const RING_ITEMS: usize = 8192;

/// What a ring is: its bytes, the size of an item, how many items fit, where
/// the oldest item stands, and how many items are stored.
pub struct RingView {
    pub data: Seq<u8>,
    pub item_size: nat,
    pub capacity: nat,
    pub head: nat,
    pub len: nat,
}

impl RingView {
    /// Items have a size, the bytes are those of `capacity` items, no more
    /// items are stored than fit, and the oldest stands inside the ring.
    pub open spec fn wf(self) -> bool {
        &&& self.item_size > 0
        &&& self.data.len() == self.capacity * self.item_size
        &&& self.len <= self.capacity
        &&& (self.head < self.capacity || (self.capacity == 0 && self.head == 0))
    }

    /// A ring of `capacity` zeroed items of `item_size` bytes, none stored.
    pub open spec fn fresh(item_size: nat, capacity: nat) -> RingView {
        RingView {
            data: Seq::new(capacity * item_size, |i: int| 0u8),
            item_size,
            capacity,
            head: 0,
            len: 0,
        }
    }

    /// The position `steps` items behind `from`, around the end of the ring.
    pub open spec fn advance(self, from: nat, steps: nat) -> nat {
        if from + steps < self.capacity {
            from + steps
        } else {
            (from + steps - self.capacity) as nat
        }
    }

    /// Where the next item will be written.
    pub open spec fn tail(self) -> nat {
        self.advance(self.head, self.len)
    }

    /// The items that can be written without wrapping around.
    pub open spec fn writable_items(self) -> nat {
        if self.capacity - self.len <= self.capacity - self.tail() {
            (self.capacity - self.len) as nat
        } else {
            (self.capacity - self.tail()) as nat
        }
    }

    /// The items that can be read without wrapping around.
    pub open spec fn readable_items(self) -> nat {
        if self.len <= self.capacity - self.head {
            self.len
        } else {
            (self.capacity - self.head) as nat
        }
    }

    /// The writable region: the byte at which it starts and its length.
    pub open spec fn writable(self) -> (nat, nat) {
        (self.tail() * self.item_size, self.writable_items() * self.item_size)
    }

    /// The readable region: the byte at which it starts and its length.
    pub open spec fn readable(self) -> (nat, nat) {
        (self.head * self.item_size, self.readable_items() * self.item_size)
    }

    /// The byte of the ring in which byte `i` of what is stored stands.
    pub open spec fn place(self, i: int) -> int {
        let at = self.head * self.item_size + i;
        if at < self.data.len() {
            at
        } else {
            at - self.data.len()
        }
    }

    /// The bytes of the stored items, oldest first.
    pub open spec fn stored(self) -> Seq<u8> {
        Seq::new(self.len * self.item_size, |i: int| self.data[self.place(i)])
    }

    /// The ring after `bytes` was copied to the start of the writable region.
    pub open spec fn written(self, bytes: Seq<u8>) -> RingView {
        RingView { data: overwrite(self.data, self.writable().0 as int, bytes), ..self }
    }

    /// The ring after `items` more items count as written.
    pub open spec fn produced(self, items: nat) -> RingView {
        RingView { len: self.len + items, ..self }
    }

    /// The ring after the `items` oldest items were consumed.
    pub open spec fn consumed(self, items: nat) -> RingView {
        RingView {
            head: self.advance(self.head, items),
            len: (self.len - items) as nat,
            ..self
        }
    }
}

/// The ring that the two ends of a connection share.
#[derive(Debug)]
pub struct Ring {
    data: Vec<u8>,
    item_size: usize,
    capacity: usize,
    head: usize,
    len: usize,
}

impl View for Ring {
    type V = RingView;

    closed spec fn view(&self) -> RingView {
        RingView {
            data: self.data@,
            item_size: self.item_size as nat,
            capacity: self.capacity as nat,
            head: self.head as nat,
            len: self.len as nat,
        }
    }
}

proof fn lemma_span(item_size: nat, capacity: nat, at: nat, count: nat)
    requires
        at + count <= capacity,
    ensures
        at * item_size + count * item_size == (at + count) * item_size,
        (at + count) * item_size <= capacity * item_size,
        at * item_size <= capacity * item_size,
        count * item_size <= capacity * item_size,
{
    assert(at * item_size + count * item_size == (at + count) * item_size) by (nonlinear_arith);
    assert((at + count) * item_size <= capacity * item_size) by (nonlinear_arith)
        requires
            at + count <= capacity,
    ;
    assert(at * item_size <= capacity * item_size) by (nonlinear_arith)
        requires
            at <= capacity,
    ;
    assert(count * item_size <= capacity * item_size) by (nonlinear_arith)
        requires
            count <= capacity,
    ;
}

impl Ring {
    #[verifier::type_invariant]
    spec fn well_formed(self) -> bool {
        self@.wf()
    }

    /// A ring without chunks of its own, to stand in while a ring is worked on.
    pub(crate) fn hollow() -> (ring: Ring)
        ensures
            ring@ == RingView::fresh(1, 0),
    {
        let ring = Ring { data: Vec::new(), item_size: 1, capacity: 0, head: 0, len: 0 };
        assert(ring@.data =~= RingView::fresh(1, 0).data);
        ring
    }

    /// A ring for `capacity` items of `item_size` bytes, zeroed, none stored.
    /// Nothing comes back where the ring would have more bytes than can be
    /// addressed.
    pub fn new(item_size: usize, capacity: usize) -> (ring: Option<Ring>)
        requires
            item_size > 0,
        ensures
            capacity * item_size <= usize::MAX ==> ring is Some && ring->0@ == RingView::fresh(
                item_size as nat,
                capacity as nat,
            ),
            capacity * item_size > usize::MAX ==> ring is None,
    {
        if capacity > usize::MAX / item_size {
            assert(capacity * item_size > usize::MAX) by (nonlinear_arith)
                requires
                    capacity as int > (usize::MAX as int) / (item_size as int),
                    item_size > 0,
            ;
            return None;
        }
        assert(capacity * item_size <= usize::MAX) by (nonlinear_arith)
            requires
                capacity as int <= (usize::MAX as int) / (item_size as int),
                item_size > 0,
        ;
        let bytes: usize = capacity * item_size;
        let mut data: Vec<u8> = Vec::new();
        let mut n: usize = 0;
        while n < bytes
            invariant
                n <= bytes,
                data@ == Seq::new(n as nat, |i: int| 0u8),
            decreases bytes - n,
        {
            data.push(0u8);
            n = n + 1;
        }
        Some(Ring { data, item_size, capacity, head: 0, len: 0 })
    }

    /// The size of one item, in bytes.
    pub fn item_size(&self) -> (n: usize)
        ensures
            n == self@.item_size,
            self@.wf(),
    {
        proof {
            use_type_invariant(self);
        }
        self.item_size
    }

    /// Number of items that fit.
    pub fn capacity(&self) -> (n: usize)
        ensures
            n == self@.capacity,
    {
        self.capacity
    }

    /// Number of items stored.
    pub fn len(&self) -> (n: usize)
        ensures
            n == self@.len,
    {
        self.len
    }

    fn tail(&self) -> (at: usize)
        requires
            self@.wf(),
        ensures
            at == self@.tail(),
            at <= self@.capacity,
    {
        if self.len < self.capacity - self.head {
            self.head + self.len
        } else {
            self.len - (self.capacity - self.head)
        }
    }

    /// The writable region: the byte at which it starts and its length. It
    /// ends where the ring ends or where the oldest stored item begins.
    pub fn writable(&self) -> (region: (usize, usize))
        ensures
            (region.0 as nat, region.1 as nat) == self@.writable(),
            self@.wf(),
    {
        proof {
            use_type_invariant(self);
        }
        let total: usize = self.data.len();
        let tail = self.tail();
        let free = self.capacity - self.len;
        let ahead = self.capacity - tail;
        let items = if free <= ahead {
            free
        } else {
            ahead
        };
        proof {
            lemma_span(self.item_size as nat, self.capacity as nat, tail as nat, items as nat);
        }
        (tail * self.item_size, items * self.item_size)
    }

    /// The readable region: the byte at which it starts and its length. It
    /// ends where the ring ends or where the stored items end.
    pub fn readable(&self) -> (region: (usize, usize))
        ensures
            (region.0 as nat, region.1 as nat) == self@.readable(),
            self@.wf(),
    {
        proof {
            use_type_invariant(self);
        }
        let total: usize = self.data.len();
        let ahead = self.capacity - self.head;
        let items = if self.len <= ahead {
            self.len
        } else {
            ahead
        };
        proof {
            lemma_span(
                self.item_size as nat,
                self.capacity as nat,
                self.head as nat,
                items as nat,
            );
        }
        (self.head * self.item_size, items * self.item_size)
    }

    /// Copies `bytes` to the start of the writable region. The bytes count as
    /// written only once `produce` says so.
    pub fn write(&mut self, bytes: &[u8])
        requires
            bytes@.len() <= old(self)@.writable().1,
        ensures
            final(self)@ == old(self)@.written(bytes@),
            final(self)@.wf(),
    {
        let (start, room) = self.writable();
        let mut taken = Ring::hollow();
        core::mem::swap(self, &mut taken);
        let Ring { data, item_size, capacity, head, len } = taken;
        let mut data = data;
        let ghost before = data@;
        proof {
            lemma_span(
                item_size as nat,
                capacity as nat,
                old(self)@.tail(),
                old(self)@.writable_items(),
            );
        }
        let total: usize = data.len();
        let mut k: usize = 0;
        while k < bytes.len()
            invariant
                k <= bytes@.len(),
                start + bytes@.len() <= before.len(),
                before.len() == total,
                data@.len() == before.len(),
                forall|i: int|
                    0 <= i < before.len() ==> data@[i] == (if start <= i < start + k {
                        bytes@[i - start]
                    } else {
                        before[i]
                    }),
            decreases bytes@.len() - k,
        {
            data.set(start + k, bytes[k]);
            k = k + 1;
        }
        assert(data@ =~= overwrite(before, start as int, bytes@));
        *self = Ring { data, item_size, capacity, head, len };
    }

    /// Counts `items` more items as written.
    pub fn produce(&mut self, items: usize)
        requires
            items <= old(self)@.writable_items(),
        ensures
            final(self)@ == old(self)@.produced(items as nat),
            final(self)@.wf(),
    {
        proof {
            use_type_invariant(&*self);
        }
        self.len = self.len + items;
    }

    /// The bytes of the readable region.
    pub fn read(&self) -> (out: &[u8])
        ensures
            out@ == self@.data.subrange(
                self@.readable().0 as int,
                (self@.readable().0 + self@.readable().1) as int,
            ),
            self@.wf(),
    {
        let (start, len) = self.readable();
        let total: usize = self.data.len();
        proof {
            use_type_invariant(self);
            lemma_span(
                self.item_size as nat,
                self.capacity as nat,
                self.head as nat,
                self@.readable_items(),
            );
        }
        vstd::slice::slice_subrange(self.data.as_slice(), start, start + len)
    }

    /// Counts the `items` oldest items as consumed.
    pub fn consume(&mut self, items: usize)
        requires
            items <= old(self)@.readable_items(),
        ensures
            final(self)@ == old(self)@.consumed(items as nat),
            final(self)@.wf(),
    {
        proof {
            use_type_invariant(&*self);
        }
        let ahead = self.capacity - self.head;
        let mut taken = Ring::hollow();
        core::mem::swap(self, &mut taken);
        let Ring { data, item_size, capacity, head, len } = taken;
        let head = if items < ahead {
            head + items
        } else {
            0
        };
        *self = Ring { data, item_size, capacity, head, len: len - items };
    }
}

/// What is written into the writable region does not touch what is stored.
pub proof fn lemma_write_keeps_stored(ring: RingView, bytes: Seq<u8>)
    requires
        ring.wf(),
        bytes.len() <= ring.writable().1,
    ensures
        ring.written(bytes).wf(),
        ring.written(bytes).stored() == ring.stored(),
{
    let isz = ring.item_size;
    let after = ring.written(bytes);
    lemma_span(isz, ring.capacity, ring.tail(), ring.writable_items());
    lemma_span(isz, ring.capacity, ring.len, 0);
    lemma_span(isz, ring.capacity, ring.head, 0);
    assert(after.stored().len() == ring.stored().len());
    assert forall|i: int| 0 <= i < ring.stored().len() implies after.stored()[i]
        == ring.stored()[i] by {
        let at = ring.place(i);
        let start = ring.writable().0;
        assert(ring.head * isz + ring.len * isz == (ring.head + ring.len) * isz)
            by (nonlinear_arith);
        if ring.head + ring.len < ring.capacity {
            assert(at == ring.head * isz + i);
            assert(at < start);
        } else {
            assert(ring.tail() * isz == (ring.head + ring.len) * isz - ring.capacity * isz)
                by (nonlinear_arith)
                requires
                    ring.tail() == ring.head + ring.len - ring.capacity,
            ;
            assert(ring.writable_items() == ring.capacity - ring.len);
            assert((ring.capacity - ring.len) * isz == ring.capacity * isz - ring.len * isz)
                by (nonlinear_arith);
            if ring.head * isz + i < ring.data.len() {
                assert(at >= start + bytes.len());
            } else {
                assert(at < start);
            }
        }
    }
    assert(after.stored() =~= ring.stored());
}

/// First in, first out, at the writing end: the items that count as written
/// come behind everything stored, as the bytes that stand in the writable
/// region.
pub proof fn lemma_produce_appends(ring: RingView, items: nat)
    requires
        ring.wf(),
        items <= ring.writable_items(),
    ensures
        ring.produced(items).wf(),
        ring.produced(items).stored() == ring.stored() + ring.data.subrange(
            ring.writable().0 as int,
            (ring.writable().0 + items * ring.item_size) as int,
        ),
{
    let isz = ring.item_size;
    let after = ring.produced(items);
    let start = ring.writable().0;
    lemma_span(isz, ring.capacity, ring.tail(), items);
    lemma_span(isz, ring.capacity, ring.len, items);
    lemma_span(isz, ring.capacity, ring.head, 0);
    let added = ring.data.subrange(start as int, (start + items * isz) as int);
    assert(ring.head * isz + ring.len * isz == (ring.head + ring.len) * isz) by (nonlinear_arith);
    if ring.head + ring.len >= ring.capacity {
        assert(ring.tail() * isz == (ring.head + ring.len) * isz - ring.capacity * isz)
            by (nonlinear_arith)
            requires
                ring.tail() == ring.head + ring.len - ring.capacity,
        ;
    }
    assert(after.stored().len() == (ring.stored() + added).len());
    assert forall|i: int| 0 <= i < after.stored().len() implies after.stored()[i] == (ring.stored()
        + added)[i] by {
        if i >= ring.len * isz {
            let j = i - ring.len * isz;
            assert(after.place(i) == start + j);
        }
    }
    assert(after.stored() =~= ring.stored() + added);
}

/// First in, first out, at the reading end: the readable region holds the
/// oldest stored bytes, and consuming items takes exactly those away.
pub proof fn lemma_consume_takes_front(ring: RingView, items: nat)
    requires
        ring.wf(),
        items <= ring.readable_items(),
    ensures
        ring.consumed(items).wf(),
        ring.data.subrange(
            ring.readable().0 as int,
            (ring.readable().0 + ring.readable().1) as int,
        ) == ring.stored().subrange(0, ring.readable().1 as int),
        ring.consumed(items).stored() == ring.stored().subrange(
            (items * ring.item_size) as int,
            ring.stored().len() as int,
        ),
{
    let isz = ring.item_size;
    let after = ring.consumed(items);
    let k = ring.readable_items();
    lemma_span(isz, ring.capacity, ring.head, k);
    lemma_span(isz, ring.capacity, ring.head, items);
    lemma_span(isz, ring.capacity, 0, ring.len);
    lemma_span(isz, ring.len, items, (ring.len - items) as nat);
    lemma_span(isz, ring.len, k, (ring.len - k) as nat);
    let front = ring.data.subrange(ring.readable().0 as int, (ring.readable().0 + k * isz) as int);
    assert(front =~= ring.stored().subrange(0, (k * isz) as int));
    let rest = ring.stored().subrange((items * isz) as int, ring.stored().len() as int);
    assert((ring.len - items) * isz == ring.len * isz - items * isz) by (nonlinear_arith);
    assert(after.stored().len() == rest.len());
    if ring.head + items >= ring.capacity {
        assert(ring.head + items == ring.capacity);
        assert(ring.head * isz + items * isz == ring.capacity * isz);
    } else {
        assert(after.head * isz == ring.head * isz + items * isz);
    }
    assert forall|i: int| 0 <= i < rest.len() implies after.stored()[i] == rest[i] by {
        assert(rest[i] == ring.data[ring.place(i + items * isz)]);
        assert(after.place(i) == ring.place(i + items * isz));
    }
    assert(after.stored() =~= rest);
}

/// One operation on a ring.
pub enum RingOp {
    /// The writer copies bytes into the writable region.
    Write(Seq<u8>),
    /// The writer counts items as written.
    Produce(nat),
    /// The reader counts items as consumed.
    Consume(nat),
}

impl RingView {
    /// Whether the protocol allows `op` in this state: what is written or
    /// produced fits the writable region, what is consumed the readable one.
    pub open spec fn enabled(self, op: RingOp) -> bool {
        match op {
            RingOp::Write(bytes) => bytes.len() <= self.writable().1,
            RingOp::Produce(items) => items <= self.writable_items(),
            RingOp::Consume(items) => items <= self.readable_items(),
        }
    }

    /// The state after `op`.
    pub open spec fn step(self, op: RingOp) -> RingView {
        match op {
            RingOp::Write(bytes) => self.written(bytes),
            RingOp::Produce(items) => self.produced(items),
            RingOp::Consume(items) => self.consumed(items),
        }
    }

    /// The bytes that `op` adds to what is stored.
    pub open spec fn fed_by(self, op: RingOp) -> Seq<u8> {
        match op {
            RingOp::Produce(items) => self.data.subrange(
                self.writable().0 as int,
                (self.writable().0 + items * self.item_size) as int,
            ),
            _ => Seq::empty(),
        }
    }

    /// The bytes that `op` takes from what is stored.
    pub open spec fn taken_by(self, op: RingOp) -> Seq<u8> {
        match op {
            RingOp::Consume(items) => self.stored().subrange(0, (items * self.item_size) as int),
            _ => Seq::empty(),
        }
    }

    /// The state after a run of operations, the first of `ops` first.
    pub open spec fn after(self, ops: Seq<RingOp>) -> RingView
        decreases ops.len(),
    {
        if ops.len() == 0 {
            self
        } else {
            self.after(ops.drop_last()).step(ops.last())
        }
    }

    /// Whether the protocol allows each operation of the run where it stands.
    pub open spec fn admits(self, ops: Seq<RingOp>) -> bool
        decreases ops.len(),
    {
        ops.len() > 0 ==> self.admits(ops.drop_last()) && self.after(ops.drop_last()).enabled(
            ops.last(),
        )
    }

    /// All bytes that the run adds to what is stored, in their order.
    pub open spec fn fed(self, ops: Seq<RingOp>) -> Seq<u8>
        decreases ops.len(),
    {
        if ops.len() == 0 {
            Seq::empty()
        } else {
            self.fed(ops.drop_last()) + self.after(ops.drop_last()).fed_by(ops.last())
        }
    }

    /// All bytes that the run takes from what is stored, in their order.
    pub open spec fn taken(self, ops: Seq<RingOp>) -> Seq<u8>
        decreases ops.len(),
    {
        if ops.len() == 0 {
            Seq::empty()
        } else {
            self.taken(ops.drop_last()) + self.after(ops.drop_last()).taken_by(ops.last())
        }
    }
}

/// Conservation, byte for byte. Over every run that the protocol allows, what
/// the reader took, followed by what is still stored, is what was stored at
/// the start, followed by what the writer produced: nothing is lost, nothing
/// made up, nothing out of order.
pub proof fn lemma_ring_conservation(ring: RingView, ops: Seq<RingOp>)
    requires
        ring.wf(),
        ring.admits(ops),
    ensures
        ring.after(ops).wf(),
        ring.after(ops).item_size == ring.item_size,
        ring.taken(ops) + ring.after(ops).stored() == ring.stored() + ring.fed(ops),
    decreases ops.len(),
{
    if ops.len() == 0 {
        assert(ring.taken(ops) + ring.stored() =~= ring.stored() + ring.fed(ops));
    } else {
        let before = ring.after(ops.drop_last());
        let op = ops.last();
        lemma_ring_conservation(ring, ops.drop_last());
        let taken = ring.taken(ops.drop_last());
        let fed = ring.fed(ops.drop_last());
        assert(taken + before.stored() == ring.stored() + fed);
        match op {
            RingOp::Write(bytes) => {
                lemma_write_keeps_stored(before, bytes);
                assert(taken + Seq::<u8>::empty() =~= taken);
                assert(fed + Seq::<u8>::empty() =~= fed);
            },
            RingOp::Produce(items) => {
                lemma_produce_appends(before, items);
                let added = before.fed_by(op);
                assert(taken + Seq::<u8>::empty() =~= taken);
                assert(taken + (before.stored() + added) =~= (taken + before.stored()) + added);
                assert((ring.stored() + fed) + added =~= ring.stored() + (fed + added));
            },
            RingOp::Consume(items) => {
                lemma_consume_takes_front(before, items);
                lemma_span(before.item_size, before.len, items, (before.len - items) as nat);
                let front = before.taken_by(op);
                let rest = before.stored().subrange(
                    (items * before.item_size) as int,
                    before.stored().len() as int,
                );
                assert(front + rest =~= before.stored());
                assert((taken + front) + rest =~= taken + (front + rest));
                assert(fed + Seq::<u8>::empty() =~= fed);
            },
        }
    }
}

/// What the writer of a ring is.
pub struct WriterView {
    pub item_size: nat,
    /// The mark that `finish` sets.
    pub finished: bool,
    /// Whether the writer has ended its stream towards the reader.
    pub notified: bool,
    pub output_id: usize,
    pub reader: Option<usize>,
}

/// What the reader of a ring is.
pub struct ReaderView {
    pub output_id: usize,
    /// The mark that `finish` sets: the writer has ended its stream.
    pub finished: bool,
    /// Whether the reader has ended the connection towards the writer.
    pub notified: bool,
}

impl WriterView {
    /// A writer as it is made: no reader, not marked finished, its stream not
    /// ended.
    pub open spec fn fresh(item_size: nat, output_id: usize) -> WriterView {
        WriterView { item_size, finished: false, notified: false, output_id, reader: None }
    }

    /// The message with which the writer ends its stream: `StreamInputDone`
    /// for the reader's input port the first time, none after that.
    pub open spec fn farewell(self) -> Option<AsyncMessage> {
        if self.notified {
            None
        } else {
            Some(AsyncMessage::StreamInputDone { input_id: self.reader->0 })
        }
    }
}

impl ReaderView {
    /// A reader as it is made: not marked finished, the connection not ended.
    pub open spec fn fresh(output_id: usize) -> ReaderView {
        ReaderView { output_id, finished: false, notified: false }
    }

    /// The message with which the reader ends the connection:
    /// `StreamOutputDone` for the writer's output port the first time, none
    /// after that.
    pub open spec fn farewell(self) -> Option<AsyncMessage> {
        if self.notified {
            None
        } else {
            Some(AsyncMessage::StreamOutputDone { output_id: self.output_id })
        }
    }

    /// Whether the stream is over for the reader: it is marked finished and
    /// `ring` stores nothing.
    pub open spec fn observes_end(self, ring: RingView) -> bool {
        self.finished && ring.len == 0
    }
}

/// The backend that builds rings in host memory.
#[derive(Debug, PartialEq, Eq, Hash)]
pub struct Circular {
    /// Number of items that the ring is to hold.
    pub items: usize,
}

/// The writing end of a ring.
#[derive(Debug)]
pub struct WriterCircular {
    item_size: usize,
    finished: bool,
    notified: bool,
    writer_output_id: usize,
    reader_input_id: Option<usize>,
}

/// The reading end of a ring.
#[derive(Debug)]
pub struct ReaderCircular {
    writer_output_id: usize,
    finished: bool,
    notified: bool,
}

impl View for WriterCircular {
    type V = WriterView;

    closed spec fn view(&self) -> WriterView {
        WriterView {
            item_size: self.item_size as nat,
            finished: self.finished,
            notified: self.notified,
            output_id: self.writer_output_id,
            reader: self.reader_input_id,
        }
    }
}

impl View for ReaderCircular {
    type V = ReaderView;

    closed spec fn view(&self) -> ReaderView {
        ReaderView {
            output_id: self.writer_output_id,
            finished: self.finished,
            notified: self.notified,
        }
    }
}

/// The number of items of `item_size` bytes that a ring asked to hold `items`
/// items does hold: all of them, or as many as can be addressed.
pub open spec fn ring_items(items: usize, item_size: usize) -> nat {
    if items * item_size <= usize::MAX {
        items as nat
    } else {
        ((usize::MAX as int) / (item_size as int)) as nat
    }
}

impl Circular {
    /// A ring for `RING_ITEMS` items.
    pub fn new() -> (circular: Circular)
        ensures
            circular == (Circular { items: RING_ITEMS }),
    {
        Circular { items: RING_ITEMS }
    }

    /// A ring for `items` items.
    pub fn with_items(items: usize) -> (circular: Circular)
        ensures
            circular == (Circular { items }),
    {
        Circular { items }
    }
}

impl Default for Circular {
    fn default() -> (circular: Circular)
        ensures
            circular == (Circular { items: RING_ITEMS }),
    {
        Circular::new()
    }
}

impl BufferBuilder for Circular {
    open spec fn built(&self, item_size: usize, writer_output_id: usize) -> AnyWriterView {
        AnyWriterView::Circular(WriterView::fresh(item_size as nat, writer_output_id))
    }

    open spec fn stocked(&self, item_size: usize) -> StoreState {
        StoreState::Ring(RingView::fresh(item_size as nat, ring_items(self.items, item_size)))
    }

    fn build(&self, item_size: usize, writer_output_id: usize) -> BufferWriter {
        WriterCircular::new(item_size, writer_output_id)
    }

    fn store(&self, item_size: usize) -> Store {
        let most: usize = usize::MAX / item_size;
        let items: usize = if self.items <= most {
            self.items
        } else {
            most
        };
        proof {
            if self.items <= most {
                assert(self.items * item_size <= usize::MAX) by (nonlinear_arith)
                    requires
                        self.items as int <= (usize::MAX as int) / (item_size as int),
                        item_size > 0,
                ;
            } else {
                assert(self.items * item_size > usize::MAX) by (nonlinear_arith)
                    requires
                        self.items as int > (usize::MAX as int) / (item_size as int),
                        item_size > 0,
                ;
                assert(most * item_size <= usize::MAX) by (nonlinear_arith)
                    requires
                        most as int == (usize::MAX as int) / (item_size as int),
                        item_size > 0,
                ;
            }
        }
        match Ring::new(item_size, items) {
            Some(ring) => Store::Ring(ring),
            None => Store::Ring(Ring::hollow()),
        }
    }
}

impl WriterCircular {
    /// A writer for items of `item_size` bytes on output port
    /// `writer_output_id`; it knows no reader yet.
    pub fn new(item_size: usize, writer_output_id: usize) -> (writer: BufferWriter)
        requires
            item_size > 0,
        ensures
            writer@ == AnyWriterView::Circular(
                WriterView::fresh(item_size as nat, writer_output_id),
            ),
    {
        BufferWriter::Circular(
            WriterCircular {
                item_size,
                finished: false,
                notified: false,
                writer_output_id,
                reader_input_id: None,
            },
        )
    }

    /// Registers the one reader of this connection, which drains into input
    /// port `reader_input_id`.
    pub fn add_reader(&mut self, reader_input_id: usize) -> (reader: BufferReader)
        requires
            old(self)@.reader is None,
        ensures
            final(self)@ == (WriterView { reader: Some(reader_input_id), ..old(self)@ }),
            reader@ == AnyReaderView::Circular(
                ReaderView::fresh(old(self)@.output_id),
            ),
    {
        self.reader_input_id = Some(reader_input_id);
        BufferReader::Circular(
            ReaderCircular {
                writer_output_id: self.writer_output_id,
                finished: false,
                notified: false,
            },
        )
    }

    /// The writable region of the ring: the byte at which it starts and its
    /// length. A full ring has none.
    pub fn bytes(&mut self, ring: &mut Ring) -> (region: (usize, usize))
        ensures
            final(self)@ == old(self)@,
            final(ring)@ == old(ring)@,
            (region.0 as nat, region.1 as nat) == old(ring)@.writable(),
    {
        ring.writable()
    }

    /// Copies `data` to the start of the writable region. The bytes count as
    /// written only once `produce` says so.
    pub fn write(&mut self, ring: &mut Ring, data: &[u8])
        requires
            data@.len() <= old(ring)@.writable().1,
        ensures
            final(self)@ == old(self)@,
            final(ring)@ == old(ring)@.written(data@),
    {
        ring.write(data);
    }

    /// Counts `amount` more items as written. With at least one, the `Notify`
    /// for the reader comes back.
    pub fn produce(&mut self, ring: &mut Ring, amount: usize) -> (notice: Option<AsyncMessage>)
        requires
            amount <= old(ring)@.writable_items(),
        ensures
            final(self)@ == old(self)@,
            final(ring)@ == old(ring)@.produced(amount as nat),
            notice == (if amount > 0 {
                Some(AsyncMessage::Notify)
            } else {
                None
            }),
    {
        ring.produce(amount);
        if amount > 0 {
            Some(AsyncMessage::Notify)
        } else {
            None
        }
    }

    /// Ends the stream towards the reader. The first time, the writer notes
    /// that its stream is ended and `StreamInputDone` for the reader's input
    /// port comes back; every later time nothing happens and nothing comes
    /// back. All that was produced stands in the ring already. Whether the
    /// writer is marked finished plays no part.
    pub fn notify_finished(&mut self) -> (notice: Option<AsyncMessage>)
        requires
            !old(self)@.notified ==> old(self)@.reader is Some,
        ensures
            final(self)@ == (WriterView { notified: true, ..old(self)@ }),
            notice == old(self)@.farewell(),
    {
        if self.notified {
            return None;
        }
        self.notified = true;
        Some(AsyncMessage::StreamInputDone { input_id: self.reader_input_id.unwrap() })
    }

    /// Whether the writer has ended its stream towards the reader.
    pub fn notified(&self) -> (ended: bool)
        ensures
            ended == self@.notified,
    {
        self.notified
    }

    /// Marks the writer finished.
    pub fn finish(&mut self)
        ensures
            final(self)@ == (WriterView { finished: true, ..old(self)@ }),
    {
        self.finished = true;
    }

    /// Whether the writer is marked finished.
    pub fn finished(&self) -> (done: bool)
        ensures
            done == self@.finished,
    {
        self.finished
    }
}

impl ReaderCircular {
    /// The readable region of the ring: the byte at which it starts and its
    /// length. An empty ring has none.
    pub fn bytes(&mut self, ring: &mut Ring) -> (region: (usize, usize))
        ensures
            final(self)@ == old(self)@,
            final(ring)@ == old(ring)@,
            (region.0 as nat, region.1 as nat) == old(ring)@.readable(),
    {
        ring.readable()
    }

    /// The bytes of the readable region: the oldest stored bytes.
    pub fn read<'a>(&self, ring: &'a Ring) -> (out: &'a [u8])
        ensures
            out@ == ring@.stored().subrange(0, ring@.readable().1 as int),
    {
        let out = ring.read();
        proof {
            lemma_consume_takes_front(ring@, 0);
        }
        out
    }

    /// Counts the `amount` oldest items as consumed. With at least one, the
    /// `Notify` for the writer comes back.
    pub fn consume(&mut self, ring: &mut Ring, amount: usize) -> (notice: Option<AsyncMessage>)
        requires
            amount <= old(ring)@.readable_items(),
        ensures
            final(self)@ == old(self)@,
            final(ring)@ == old(ring)@.consumed(amount as nat),
            notice == (if amount > 0 {
                Some(AsyncMessage::Notify)
            } else {
                None
            }),
    {
        ring.consume(amount);
        if amount > 0 {
            Some(AsyncMessage::Notify)
        } else {
            None
        }
    }

    /// Ends the connection towards the writer. The first time, the reader
    /// notes that the connection is ended and `StreamOutputDone` for the
    /// writer's output port comes back; every later time nothing happens and
    /// nothing comes back.
    pub fn notify_finished(&mut self) -> (notice: Option<AsyncMessage>)
        ensures
            final(self)@ == (ReaderView { notified: true, ..old(self)@ }),
            notice == old(self)@.farewell(),
    {
        if self.notified {
            return None;
        }
        self.notified = true;
        Some(AsyncMessage::StreamOutputDone { output_id: self.writer_output_id })
    }

    /// Whether the reader has ended the connection towards the writer.
    pub fn notified(&self) -> (ended: bool)
        ensures
            ended == self@.notified,
    {
        self.notified
    }

    /// Marks the reader finished: the writer has ended its stream.
    pub fn finish(&mut self)
        ensures
            final(self)@ == (ReaderView { finished: true, ..old(self)@ }),
    {
        self.finished = true;
    }

    /// Whether the stream is over for the reader: it is marked finished and
    /// has consumed every item that the writer produced.
    pub fn finished(&self, ring: &Ring) -> (done: bool)
        ensures
            done == self@.observes_end(ring@),
    {
        self.finished && ring.len() == 0
    }
}

} // verus!
