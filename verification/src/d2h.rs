//! Device-to-host handoff. The writer on the device side hands over whole
//! chunks with their payload and takes them back empty; the reader on the host
//! side consumes the current chunk item by item and returns it once it is
//! used up.
//!
//! Offsets and amounts are counted in items; the payload of a chunk is counted
//! in bytes. Only whole items are ever read: payload bytes beyond the last
//! whole item stay behind.

use vstd::prelude::*;
use crate::buffer::{
    BufferBuilder, BufferReader, BufferWriter, ReaderView as AnyReaderView, Store, StoreState,
    WriterView as AnyWriterView,
};
use crate::chunk::{BufferEmpty, BufferFull, FullView};
use crate::message::AsyncMessage;
use crate::pools::{empty_views, Pools, PoolsView};

verus! {

/// What a device-side writer is.
pub struct WriterView {
    pub item_size: nat,
    /// The mark that `finish` sets.
    pub finished: bool,
    /// Whether the writer has ended its stream towards the reader.
    pub notified: bool,
    pub output_id: usize,
    pub reader: Option<usize>,
}

/// The chunk a reader is consuming, and how many of its items are consumed.
pub struct CurrentView {
    pub chunk: FullView,
    pub offset: nat,
}

/// What a host reader is.
pub struct ReaderView {
    pub item_size: nat,
    pub current: Option<CurrentView>,
    /// The mark that `finish` sets: the writer has ended its stream.
    pub finished: bool,
    /// Whether the reader has ended the connection towards the writer.
    pub notified: bool,
    pub output_id: usize,
}

/// The number of whole items in the payload of a chunk.
pub open spec fn payload_items(chunk: FullView, item_size: nat) -> nat {
    chunk.used / item_size
}

/// The number of whole items in the payloads of a sequence of chunks.
pub open spec fn items_total(chunks: Seq<FullView>, item_size: nat) -> nat
    decreases chunks.len(),
{
    if chunks.len() == 0 {
        0
    } else {
        items_total(chunks.drop_last(), item_size) + payload_items(chunks.last(), item_size)
    }
}

impl WriterView {
    /// A writer as it is made: no reader, not marked finished, its stream not
    /// ended.
    pub open spec fn fresh(item_size: nat, output_id: usize) -> WriterView {
        WriterView { item_size, finished: false, notified: false, output_id, reader: None }
    }

    /// The message with which the writer ends its stream: `StreamInputDone`
    /// for the reader's input port the first time, none after that.
    pub open spec fn farewell(self) -> Option<AsyncMessage> {
        if self.notified {
            None
        } else {
            Some(AsyncMessage::StreamInputDone { input_id: self.reader->0 })
        }
    }
}

impl ReaderView {
    /// Items have a size, and of the current chunk, whose payload is within
    /// its capacity, no more is consumed than it carries.
    pub open spec fn wf(self) -> bool {
        &&& self.item_size > 0
        &&& self.current matches Some(c) ==> c.chunk.wf() && c.offset <= payload_items(
            c.chunk,
            self.item_size,
        )
    }

    /// A reader as it is made: nothing held, not marked finished, the
    /// connection not ended.
    pub open spec fn fresh(item_size: nat, output_id: usize) -> ReaderView {
        ReaderView { item_size, current: None, finished: false, notified: false, output_id }
    }

    /// The message with which the reader ends the connection:
    /// `StreamOutputDone` for the writer's output port the first time, none
    /// after that.
    pub open spec fn farewell(self) -> Option<AsyncMessage> {
        if self.notified {
            None
        } else {
            Some(AsyncMessage::StreamOutputDone { output_id: self.output_id })
        }
    }

    /// Whether the stream is over for the reader: it is marked finished, it
    /// holds no chunk, and no full chunk of `pools` waits for it.
    pub open spec fn observes_end(self, pools: PoolsView) -> bool {
        self.finished && self.current is None && pools.full.len() == 0
    }

    /// Items of the current chunk that are not consumed yet.
    pub open spec fn pending_items(self) -> nat {
        match self.current {
            Some(c) => (payload_items(c.chunk, self.item_size) - c.offset) as nat,
            None => 0,
        }
    }

    /// The readable region: the byte at which it starts in the current chunk
    /// and its length in bytes; `(0, 0)` while no chunk is held.
    pub open spec fn region(self) -> (nat, nat) {
        match self.current {
            Some(c) => (
                c.offset * self.item_size,
                ((payload_items(c.chunk, self.item_size) - c.offset) * self.item_size) as nat,
            ),
            None => (0, 0),
        }
    }

    /// The bytes of the readable region.
    pub open spec fn readable(self) -> Seq<u8> {
        match self.current {
            Some(c) => c.chunk.bytes.subrange(
                self.region().0 as int,
                (self.region().0 + self.region().1) as int,
            ),
            None => Seq::empty(),
        }
    }
}

/// A connection as its reader sees it: the reader and the shared pools.
pub struct D2HView {
    pub reader: ReaderView,
    pub pools: PoolsView,
}

impl D2HView {
    pub open spec fn wf(self) -> bool {
        self.reader.wf() && self.pools.wf()
    }

    /// Whole items that the writer has handed over and the reader has not
    /// consumed.
    pub open spec fn stored(self) -> nat {
        items_total(self.pools.full, self.reader.item_size) + self.reader.pending_items()
    }

    /// Whether a chunk with identity `id` is anywhere on the connection: in
    /// the full pool, with the reader, or in the empty pool.
    pub open spec fn holds(self, id: u64) -> bool {
        ||| crate::pools::empty_ids(self.pools.empty).contains(id)
        ||| (self.reader.current matches Some(c) && c.chunk.id == id)
        ||| crate::pools::full_ids(self.pools.full).contains(id)
    }

    /// No chunk is in two places: no identity occurs twice in a pool, none
    /// occurs in both pools, and the chunk being consumed is in neither.
    pub open spec fn exclusive(self) -> bool {
        let empty = crate::pools::empty_ids(self.pools.empty);
        let full = crate::pools::full_ids(self.pools.full);
        &&& empty.no_duplicates()
        &&& full.no_duplicates()
        &&& forall|id: u64| !(empty.contains(id) && full.contains(id))
        &&& self.reader.current matches Some(c) ==> !empty.contains(c.chunk.id) && !full.contains(
            c.chunk.id,
        )
    }

    /// The reader takes the oldest full chunk as its current one, if it holds
    /// none and there is one to take.
    pub open spec fn acquire(self) -> D2HView {
        if self.reader.current is None && self.pools.full.len() > 0 {
            D2HView {
                reader: ReaderView {
                    current: Some(CurrentView { chunk: self.pools.full.first(), offset: 0 }),
                    ..self.reader
                },
                pools: PoolsView { full: self.pools.full.drop_first(), ..self.pools },
            }
        } else {
            self
        }
    }

    /// The current chunk goes back, empty.
    pub open spec fn release(self) -> D2HView
        recommends
            self.reader.current is Some,
    {
        D2HView {
            reader: ReaderView { current: None, ..self.reader },
            pools: self.pools.with_empty(self.reader.current->0.chunk.emptied()),
        }
    }

    /// `amount` more items count as consumed. A chunk that is thereby used up
    /// goes back empty and the next full chunk is taken.
    pub open spec fn consume(self, amount: nat) -> D2HView
        recommends
            self.reader.current is Some,
    {
        let c = self.reader.current->0;
        if c.offset + amount == payload_items(c.chunk, self.reader.item_size) {
            self.release().acquire()
        } else {
            D2HView {
                reader: ReaderView {
                    current: Some(CurrentView { offset: c.offset + amount, ..c }),
                    ..self.reader
                },
                ..self
            }
        }
    }

    /// Whether `consume(amount)` uses the current chunk up.
    pub open spec fn exhausts(self, amount: nat) -> bool
        recommends
            self.reader.current is Some,
    {
        let c = self.reader.current->0;
        c.offset + amount == payload_items(c.chunk, self.reader.item_size)
    }

    /// The writer hands over a full chunk.
    pub open spec fn submit(self, chunk: FullView) -> D2HView {
        D2HView { pools: self.pools.with_full(chunk), ..self }
    }

    /// The writer takes all empty chunks back.
    pub open spec fn reclaim(self) -> D2HView {
        D2HView { pools: self.pools.without_empty(), ..self }
    }

    /// Whether nothing is left to read: no current chunk and no full chunk.
    pub open spec fn idle(self) -> bool {
        self.reader.current is None && self.pools.full.len() == 0
    }
}

/// A connection seen as one value.
pub open spec fn edge(reader: ReaderView, pools: PoolsView) -> D2HView {
    D2HView { reader, pools }
}

/// The chunk a reader is consuming.
#[derive(Debug)]
struct CurrentBuffer {
    buffer: BufferFull,
    offset: usize,
}

/// The backend that builds device-to-host connections.
#[derive(Debug, PartialEq, Eq, Hash)]
pub struct D2H;

/// The device end of a device-to-host connection.
#[derive(Debug)]
pub struct WriterD2H {
    item_size: usize,
    finished: bool,
    notified: bool,
    writer_output_id: usize,
    reader_input_id: Option<usize>,
}

/// The host end of a device-to-host connection.
#[derive(Debug)]
pub struct ReaderD2H {
    buffer: Option<CurrentBuffer>,
    item_size: usize,
    finished: bool,
    notified: bool,
    writer_output_id: usize,
}

impl View for WriterD2H {
    type V = WriterView;

    closed spec fn view(&self) -> WriterView {
        WriterView {
            item_size: self.item_size as nat,
            finished: self.finished,
            notified: self.notified,
            output_id: self.writer_output_id,
            reader: self.reader_input_id,
        }
    }
}

impl View for ReaderD2H {
    type V = ReaderView;

    closed spec fn view(&self) -> ReaderView {
        ReaderView {
            item_size: self.item_size as nat,
            current: match self.buffer {
                Some(c) => Some(CurrentView { chunk: c.buffer@, offset: c.offset as nat }),
                None => None,
            },
            finished: self.finished,
            notified: self.notified,
            output_id: self.writer_output_id,
        }
    }
}

proof fn lemma_items_fit(used: nat, item_size: nat, offset: nat)
    requires
        item_size > 0,
        offset <= used / item_size,
    ensures
        offset * item_size <= used,
        (used / item_size) * item_size <= used,
        (used / item_size - offset) * item_size <= used,
        offset * item_size + (used / item_size - offset) * item_size == (used / item_size)
            * item_size,
{
    let cap = used / item_size;
    assert(cap * item_size <= used) by (nonlinear_arith)
        requires
            cap == used / item_size,
            item_size > 0,
    ;
    assert(offset * item_size + (cap - offset) * item_size == cap * item_size)
        by (nonlinear_arith);
    assert(offset * item_size >= 0 && (cap - offset) * item_size >= 0) by (nonlinear_arith)
        requires
            offset <= cap,
            item_size > 0,
    ;
}

impl D2H {
    /// The backend.
    pub fn new() -> (backend: D2H)
        ensures
            backend == D2H,
    {
        D2H
    }
}

impl Default for D2H {
    fn default() -> (backend: D2H)
        ensures
            backend == D2H,
    {
        D2H::new()
    }
}

impl BufferBuilder for D2H {
    open spec fn built(&self, item_size: usize, writer_output_id: usize) -> AnyWriterView {
        AnyWriterView::D2H(WriterView::fresh(item_size as nat, writer_output_id))
    }

    open spec fn stocked(&self, item_size: usize) -> StoreState {
        StoreState::Pools(PoolsView::vacant())
    }

    fn build(&self, item_size: usize, writer_output_id: usize) -> BufferWriter {
        WriterD2H::new(item_size, writer_output_id)
    }

    fn store(&self, item_size: usize) -> Store {
        Store::Pools(Pools::new())
    }
}

impl WriterD2H {
    #[verifier::type_invariant]
    spec fn items_have_size(self) -> bool {
        self.item_size > 0
    }

    /// A writer for items of `item_size` bytes on output port
    /// `writer_output_id`; it knows no reader yet.
    pub fn new(item_size: usize, writer_output_id: usize) -> (writer: BufferWriter)
        requires
            item_size > 0,
        ensures
            writer@ == AnyWriterView::D2H(WriterView::fresh(item_size as nat, writer_output_id)),
    {
        BufferWriter::D2H(
            WriterD2H {
                item_size,
                finished: false,
                notified: false,
                writer_output_id,
                reader_input_id: None,
            },
        )
    }

    /// Registers the one reader of this connection, which drains into input
    /// port `reader_input_id`.
    pub fn add_reader(&mut self, reader_input_id: usize) -> (reader: BufferReader)
        requires
            old(self)@.reader is None,
        ensures
            final(self)@ == (WriterView { reader: Some(reader_input_id), ..old(self)@ }),
            reader@ == AnyReaderView::D2H(
                ReaderView::fresh(old(self)@.item_size, old(self)@.output_id),
            ),
    {
        proof {
            use_type_invariant(&*self);
        }
        self.reader_input_id = Some(reader_input_id);
        BufferReader::D2H(ReaderD2H::new(self.item_size, self.writer_output_id))
    }

    /// Takes back all chunks that the reader has returned, oldest first.
    pub fn buffers(&mut self, pools: &mut Pools) -> (chunks: Vec<BufferEmpty>)
        ensures
            final(self)@ == old(self)@,
            empty_views(chunks@) == old(pools)@.empty,
            final(pools)@ == old(pools)@.without_empty(),
    {
        pools.take_empty()
    }

    /// Hands a full chunk over, as the newest of the full pool. The `Notify`
    /// for the reader comes back.
    pub fn submit(&mut self, pools: &mut Pools, buffer: BufferFull) -> (notice: AsyncMessage)
        ensures
            final(self)@ == old(self)@,
            final(pools)@ == old(pools)@.with_full(buffer@),
            buffer@.wf(),
            notice == AsyncMessage::Notify,
    {
        pools.push_full(buffer);
        AsyncMessage::Notify
    }

    /// Ends the stream towards the reader. The first time, the writer notes
    /// that its stream is ended and `StreamInputDone` for the reader's input
    /// port comes back; every later time nothing happens and nothing comes
    /// back. Whether the writer is marked finished plays no part.
    pub fn notify_finished(&mut self) -> (notice: Option<AsyncMessage>)
        requires
            !old(self)@.notified ==> old(self)@.reader is Some,
        ensures
            final(self)@ == (WriterView { notified: true, ..old(self)@ }),
            notice == old(self)@.farewell(),
    {
        proof {
            use_type_invariant(&*self);
        }
        if self.notified {
            return None;
        }
        self.notified = true;
        Some(AsyncMessage::StreamInputDone { input_id: self.reader_input_id.unwrap() })
    }

    /// Whether the writer has ended its stream towards the reader.
    pub fn notified(&self) -> (ended: bool)
        ensures
            ended == self@.notified,
    {
        self.notified
    }

    /// Marks the writer finished.
    pub fn finish(&mut self)
        ensures
            final(self)@ == (WriterView { finished: true, ..old(self)@ }),
    {
        proof {
            use_type_invariant(&*self);
        }
        self.finished = true;
    }

    /// Whether the writer is marked finished.
    pub fn finished(&self) -> (done: bool)
        ensures
            done == self@.finished,
    {
        self.finished
    }
}

impl ReaderD2H {
    #[verifier::type_invariant]
    spec fn consumed_within_payload(self) -> bool {
        self@.wf()
    }

    /// A reader that holds nothing and is not marked finished.
    pub(crate) fn new(item_size: usize, writer_output_id: usize) -> (reader: ReaderD2H)
        requires
            item_size > 0,
        ensures
            reader@ == ReaderView::fresh(item_size as nat, writer_output_id),
    {
        ReaderD2H { buffer: None, item_size, finished: false, notified: false, writer_output_id }
    }

    /// The readable region of the current chunk: where it starts in the chunk
    /// and how many bytes it has. Takes the oldest full chunk if none is held;
    /// with none to take, the region is empty.
    pub fn bytes(&mut self, pools: &mut Pools) -> (region: (usize, usize))
        ensures
            edge(final(self)@, final(pools)@) == edge(old(self)@, old(pools)@).acquire(),
            (region.0 as nat, region.1 as nat) == final(self)@.region(),
            final(self)@.wf(),
    {
        proof {
            use_type_invariant(&*self);
        }
        if self.buffer.is_none() {
            match pools.pop_full() {
                Some(b) => {
                    let _ = b.used_bytes();
                    self.buffer = Some(CurrentBuffer { buffer: b, offset: 0 });
                },
                None => {
                    return (0, 0);
                },
            }
        }
        match &self.buffer {
            Some(cur) => {
                let items: usize = cur.buffer.used_bytes() / self.item_size;
                proof {
                    lemma_items_fit(cur.buffer@.used, self.item_size as nat, cur.offset as nat);
                }
                (cur.offset * self.item_size, (items - cur.offset) * self.item_size)
            },
            None => (0, 0),
        }
    }

    /// The size of one item, in bytes.
    pub fn item_size(&self) -> (n: usize)
        ensures
            n == self@.item_size,
            n > 0,
    {
        proof {
            use_type_invariant(self);
        }
        self.item_size
    }

    /// Whether the reader holds a chunk. A reader may hold a chunk and still
    /// have nothing to read: a chunk whose payload is less than one item.
    pub fn has_current(&self) -> (held: bool)
        ensures
            held == self@.current is Some,
    {
        self.buffer.is_some()
    }

    /// The bytes of the readable region of the current chunk.
    pub fn read(&self) -> (out: &[u8])
        requires
            self@.current is Some,
        ensures
            out@ == self@.readable(),
            self@.wf(),
    {
        proof {
            use_type_invariant(self);
        }
        match &self.buffer {
            Some(cur) => {
                let used: usize = cur.buffer.used_bytes();
                let items: usize = used / self.item_size;
                proof {
                    lemma_items_fit(used as nat, self.item_size as nat, cur.offset as nat);
                }
                let payload = cur.buffer.payload();
                let out = vstd::slice::slice_subrange(
                    payload,
                    cur.offset * self.item_size,
                    items * self.item_size,
                );
                assert(out@ =~= self@.readable());
                out
            },
            None => vstd::pervasive::unreached(),
        }
    }

    /// Counts `amount` more items of the current chunk as consumed. When the
    /// chunk is thereby used up it goes to the empty pool, the oldest full
    /// chunk becomes the current one, and a `Notify` for the writer comes
    /// back.
    pub fn consume(&mut self, pools: &mut Pools, amount: usize) -> (notice: Option<AsyncMessage>)
        requires
            old(self)@.current is Some,
            old(self)@.current->0.offset + amount <= payload_items(
                old(self)@.current->0.chunk,
                old(self)@.item_size,
            ),
        ensures
            edge(final(self)@, final(pools)@) == edge(old(self)@, old(pools)@).consume(
                amount as nat,
            ),
            notice == (if edge(old(self)@, old(pools)@).exhausts(amount as nat) {
                Some(AsyncMessage::Notify)
            } else {
                None
            }),
            final(self)@.wf(),
    {
        proof {
            use_type_invariant(&*self);
        }
        let mut cur: Option<CurrentBuffer> = None;
        core::mem::swap(&mut self.buffer, &mut cur);
        let CurrentBuffer { buffer, offset } = cur.unwrap();
        let items: usize = buffer.used_bytes() / self.item_size;
        let offset: usize = offset + amount;
        if offset == items {
            pools.push_empty(buffer.into_empty());
            match pools.pop_full() {
                Some(b) => {
                    let _ = b.used_bytes();
                    self.buffer = Some(CurrentBuffer { buffer: b, offset: 0 });
                },
                None => {},
            }
            Some(AsyncMessage::Notify)
        } else {
            self.buffer = Some(CurrentBuffer { buffer, offset });
            None
        }
    }

    /// Ends the connection towards the writer. The first time, the reader
    /// notes that the connection is ended and `StreamOutputDone` for the
    /// writer's output port comes back; every later time nothing happens and
    /// nothing comes back.
    pub fn notify_finished(&mut self) -> (notice: Option<AsyncMessage>)
        ensures
            final(self)@ == (ReaderView { notified: true, ..old(self)@ }),
            notice == old(self)@.farewell(),
    {
        proof {
            use_type_invariant(&*self);
        }
        if self.notified {
            return None;
        }
        self.notified = true;
        Some(AsyncMessage::StreamOutputDone { output_id: self.writer_output_id })
    }

    /// Whether the reader has ended the connection towards the writer.
    pub fn notified(&self) -> (ended: bool)
        ensures
            ended == self@.notified,
    {
        self.notified
    }

    /// Marks the reader finished: the writer has ended its stream.
    pub fn finish(&mut self)
        ensures
            final(self)@ == (ReaderView { finished: true, ..old(self)@ }),
    {
        proof {
            use_type_invariant(&*self);
        }
        self.finished = true;
    }

    /// Whether the stream is over for the reader: it is marked finished, it
    /// holds no chunk, and it has taken every full chunk that the writer
    /// handed over.
    pub fn finished(&self, pools: &Pools) -> (done: bool)
        ensures
            done == self@.observes_end(pools@),
    {
        self.finished && self.buffer.is_none() && pools.full_len() == 0
    }
}

} // verus!
