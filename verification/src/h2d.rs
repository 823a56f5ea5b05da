//! Host-to-device handoff. The writer fills the current chunk item by item and
//! passes it on, full, to the device side; the reader on the device side takes
//! whole chunks and hands them back empty.
//!
//! Offsets, amounts and capacities are counted in items; the payload of a
//! chunk is counted in bytes.

use vstd::prelude::*;
use crate::buffer::{
    BufferBuilder, BufferReader, BufferWriter, Store, StoreState, WriterView as AnyWriterView,
};
use crate::chunk::{overwrite, BufferEmpty, BufferFull, EmptyView};
use crate::message::AsyncMessage;
use crate::pools::{full_views, used_total, Pools, PoolsView};

verus! {

/// The chunk a writer is filling, and how many items it holds already.
pub struct CurrentView {
    pub chunk: EmptyView,
    pub offset: nat,
}

/// What a host writer is.
pub struct WriterView {
    pub item_size: nat,
    pub current: Option<CurrentView>,
    /// The mark that `finish` sets.
    pub finished: bool,
    /// Whether the writer has ended its stream towards the reader.
    pub notified: bool,
    pub output_id: usize,
    pub reader: Option<usize>,
}

/// The number of whole items that fit a chunk.
pub open spec fn capacity_items(chunk: EmptyView, item_size: nat) -> nat {
    chunk.bytes.len() / item_size
}

impl WriterView {
    /// Items have a size, and the current chunk is never filled beyond its
    /// capacity.
    pub open spec fn wf(self) -> bool {
        &&& self.item_size > 0
        &&& self.current matches Some(c) ==> c.offset <= capacity_items(c.chunk, self.item_size)
    }

    /// A writer as it is made: nothing held, no reader, not marked finished,
    /// its stream not ended.
    pub open spec fn fresh(item_size: nat, output_id: usize) -> WriterView {
        WriterView {
            item_size,
            current: None,
            finished: false,
            notified: false,
            output_id,
            reader: None,
        }
    }

    /// The message with which the writer ends its stream: `StreamInputDone`
    /// for the reader's input port the first time, none after that.
    pub open spec fn farewell(self) -> Option<AsyncMessage> {
        if self.notified {
            None
        } else {
            Some(AsyncMessage::StreamInputDone { input_id: self.reader->0 })
        }
    }

    /// Bytes written into the current chunk and not yet passed on.
    pub open spec fn pending_bytes(self) -> nat {
        match self.current {
            Some(c) => c.offset * self.item_size,
            None => 0,
        }
    }

    /// The writer after `data` was copied to the start of its writable region.
    pub open spec fn written(self, data: Seq<u8>) -> WriterView
        recommends
            self.current is Some,
    {
        let c = self.current->0;
        WriterView {
            current: Some(
                CurrentView {
                    chunk: EmptyView {
                        bytes: overwrite(c.chunk.bytes, (c.offset * self.item_size) as int, data),
                        ..c.chunk
                    },
                    ..c
                },
            ),
            ..self
        }
    }

    /// The writable region: the byte at which it starts in the current chunk
    /// and its length in bytes; `(0, 0)` while no chunk is held.
    pub open spec fn region(self) -> (nat, nat) {
        match self.current {
            Some(c) => (
                c.offset * self.item_size,
                ((capacity_items(c.chunk, self.item_size) - c.offset) * self.item_size) as nat,
            ),
            None => (0, 0),
        }
    }
}

/// What a device-side reader is.
pub struct ReaderView {
    pub output_id: usize,
    /// The mark that `finish` sets: the writer has ended its stream.
    pub finished: bool,
    /// Whether the reader has ended the connection towards the writer.
    pub notified: bool,
}

impl ReaderView {
    /// A reader as it is made: not marked finished, the connection not ended.
    pub open spec fn fresh(output_id: usize) -> ReaderView {
        ReaderView { output_id, finished: false, notified: false }
    }

    /// The message with which the reader ends the connection:
    /// `StreamOutputDone` for the writer's output port the first time, none
    /// after that.
    pub open spec fn farewell(self) -> Option<AsyncMessage> {
        if self.notified {
            None
        } else {
            Some(AsyncMessage::StreamOutputDone { output_id: self.output_id })
        }
    }

    /// Whether the stream is over for the reader: it is marked finished and
    /// no full chunk of `pools` waits for it.
    pub open spec fn observes_end(self, pools: PoolsView) -> bool {
        self.finished && pools.full.len() == 0
    }
}

/// A connection as its writer sees it: the writer and the shared pools.
pub struct H2DView {
    pub writer: WriterView,
    pub pools: PoolsView,
}

impl H2DView {
    pub open spec fn wf(self) -> bool {
        self.writer.wf() && self.pools.wf()
    }

    /// Payload bytes that the writer has produced and the reader has not taken.
    pub open spec fn buffered(self) -> nat {
        used_total(self.pools.full) + self.writer.pending_bytes()
    }

    /// Whether a chunk with identity `id` is anywhere on the connection: in
    /// the empty pool, with the writer, or in the full pool.
    pub open spec fn holds(self, id: u64) -> bool {
        ||| crate::pools::empty_ids(self.pools.empty).contains(id)
        ||| (self.writer.current matches Some(c) && c.chunk.id == id)
        ||| crate::pools::full_ids(self.pools.full).contains(id)
    }

    /// No chunk is in two places: no identity occurs twice in a pool, none
    /// occurs in both pools, and the chunk being filled is in neither.
    pub open spec fn exclusive(self) -> bool {
        let empty = crate::pools::empty_ids(self.pools.empty);
        let full = crate::pools::full_ids(self.pools.full);
        &&& empty.no_duplicates()
        &&& full.no_duplicates()
        &&& forall|id: u64| !(empty.contains(id) && full.contains(id))
        &&& self.writer.current matches Some(c) ==> !empty.contains(c.chunk.id) && !full.contains(
            c.chunk.id,
        )
    }

    /// The writer takes the newest empty chunk as its current one, if it holds
    /// none and there is one to take.
    pub open spec fn acquire(self) -> H2DView {
        if self.writer.current is None && self.pools.empty.len() > 0 {
            H2DView {
                writer: WriterView {
                    current: Some(CurrentView { chunk: self.pools.empty.last(), offset: 0 }),
                    ..self.writer
                },
                pools: PoolsView { empty: self.pools.empty.drop_last(), ..self.pools },
            }
        } else {
            self
        }
    }

    /// The current chunk is passed on with `used` bytes of payload.
    pub open spec fn flush(self, used: nat) -> H2DView
        recommends
            self.writer.current is Some,
    {
        H2DView {
            writer: WriterView { current: None, ..self.writer },
            pools: PoolsView {
                full: self.pools.full.push(self.writer.current->0.chunk.filled(used)),
                ..self.pools
            },
        }
    }

    /// `data` is written at the start of the writable region.
    pub open spec fn write(self, data: Seq<u8>) -> H2DView
        recommends
            self.writer.current is Some,
    {
        H2DView { writer: self.writer.written(data), ..self }
    }

    /// `amount` more items count as written. A chunk that is thereby filled to
    /// its capacity is passed on and the next empty chunk taken.
    pub open spec fn produce(self, amount: nat) -> H2DView
        recommends
            self.writer.current is Some,
    {
        let c = self.writer.current->0;
        let capacity = capacity_items(c.chunk, self.writer.item_size);
        if c.offset + amount == capacity {
            self.flush(capacity * self.writer.item_size).acquire()
        } else {
            H2DView {
                writer: WriterView {
                    current: Some(CurrentView { offset: c.offset + amount, ..c }),
                    ..self.writer
                },
                ..self
            }
        }
    }

    /// Whether `produce(amount)` passes a chunk on.
    pub open spec fn completes(self, amount: nat) -> bool
        recommends
            self.writer.current is Some,
    {
        let c = self.writer.current->0;
        c.offset + amount == capacity_items(c.chunk, self.writer.item_size)
    }

    /// The writer ends its stream: a partly filled chunk is passed on with
    /// exactly the bytes written, a chunk without payload is let go, and the
    /// writer notes that its stream is ended. Nothing happens where the
    /// stream was ended before. The mark that `finish` sets plays no part.
    pub open spec fn wind_up(self) -> H2DView {
        if self.writer.notified {
            self
        } else {
            let ended = H2DView { writer: WriterView { notified: true, ..self.writer }, ..self };
            match self.writer.current {
                Some(c) => if c.offset > 0 {
                    ended.flush(c.offset * self.writer.item_size)
                } else {
                    H2DView { writer: WriterView { current: None, ..ended.writer }, ..ended }
                },
                None => ended,
            }
        }
    }

    /// The reader hands an empty chunk to the connection.
    pub open spec fn submit(self, chunk: EmptyView) -> H2DView {
        H2DView { pools: self.pools.with_empty(chunk), ..self }
    }

    /// The reader takes all full chunks.
    pub open spec fn drain(self) -> H2DView {
        H2DView { pools: self.pools.without_full(), ..self }
    }
}

/// The chunk a writer is filling.
#[derive(Debug)]
struct CurrentBuffer {
    buffer: BufferEmpty,
    offset: usize,
}

/// The backend that builds host-to-device connections.
#[derive(Debug, PartialEq, Eq, Hash)]
pub struct H2D;

/// The host end of a host-to-device connection.
#[derive(Debug)]
pub struct WriterH2D {
    buffer: Option<CurrentBuffer>,
    item_size: usize,
    finished: bool,
    notified: bool,
    writer_output_id: usize,
    reader_input_id: Option<usize>,
}

/// The device end of a host-to-device connection.
#[derive(Debug)]
pub struct ReaderH2D {
    writer_output_id: usize,
    finished: bool,
    notified: bool,
}

impl WriterH2D {
    #[verifier::type_invariant]
    spec fn filled_within_capacity(self) -> bool {
        self@.wf()
    }
}

impl View for WriterH2D {
    type V = WriterView;

    closed spec fn view(&self) -> WriterView {
        WriterView {
            item_size: self.item_size as nat,
            current: match self.buffer {
                Some(c) => Some(CurrentView { chunk: c.buffer@, offset: c.offset as nat }),
                None => None,
            },
            finished: self.finished,
            notified: self.notified,
            output_id: self.writer_output_id,
            reader: self.reader_input_id,
        }
    }
}

impl View for ReaderH2D {
    type V = ReaderView;

    closed spec fn view(&self) -> ReaderView {
        ReaderView {
            output_id: self.writer_output_id,
            finished: self.finished,
            notified: self.notified,
        }
    }
}

/// A connection seen as one value.
pub open spec fn edge(writer: WriterView, pools: PoolsView) -> H2DView {
    H2DView { writer, pools }
}

proof fn lemma_items_fit(len: nat, item_size: nat, offset: nat)
    requires
        item_size > 0,
        offset <= len / item_size,
    ensures
        offset * item_size <= len,
        (len / item_size) * item_size <= len,
        (len / item_size - offset) * item_size <= len,
        offset * item_size + (len / item_size - offset) * item_size == (len / item_size)
            * item_size,
{
    let cap = len / item_size;
    assert(cap * item_size <= len) by (nonlinear_arith)
        requires
            cap == len / item_size,
            item_size > 0,
    ;
    assert(offset * item_size + (cap - offset) * item_size == cap * item_size)
        by (nonlinear_arith);
    assert(offset * item_size >= 0 && (cap - offset) * item_size >= 0) by (nonlinear_arith)
        requires
            offset <= cap,
            item_size > 0,
    ;
}

impl H2D {
    /// The backend.
    pub fn new() -> (backend: H2D)
        ensures
            backend == H2D,
    {
        H2D
    }
}

impl Default for H2D {
    fn default() -> (backend: H2D)
        ensures
            backend == H2D,
    {
        H2D::new()
    }
}

impl BufferBuilder for H2D {
    open spec fn built(&self, item_size: usize, writer_output_id: usize) -> AnyWriterView {
        AnyWriterView::H2D(WriterView::fresh(item_size as nat, writer_output_id))
    }

    open spec fn stocked(&self, item_size: usize) -> StoreState {
        StoreState::Pools(PoolsView::vacant())
    }

    fn build(&self, item_size: usize, writer_output_id: usize) -> BufferWriter {
        WriterH2D::new(item_size, writer_output_id)
    }

    fn store(&self, item_size: usize) -> Store {
        Store::Pools(Pools::new())
    }
}

impl WriterH2D {
    /// A writer for items of `item_size` bytes on output port
    /// `writer_output_id`: it holds no chunk and knows no reader yet.
    pub fn new(item_size: usize, writer_output_id: usize) -> (writer: BufferWriter)
        requires
            item_size > 0,
        ensures
            writer@ == AnyWriterView::H2D(WriterView::fresh(item_size as nat, writer_output_id)),
    {
        BufferWriter::H2D(WriterH2D::bare(item_size, writer_output_id))
    }

    /// A writer that is not yet one end of a connection of some kind.
    pub(crate) fn bare(item_size: usize, writer_output_id: usize) -> (writer: WriterH2D)
        requires
            item_size > 0,
        ensures
            writer@ == WriterView::fresh(item_size as nat, writer_output_id),
    {
        WriterH2D {
            buffer: None,
            item_size,
            finished: false,
            notified: false,
            writer_output_id,
            reader_input_id: None,
        }
    }

    /// Notes that the reader drains into input port `reader_input_id`.
    pub(crate) fn register(&mut self, reader_input_id: usize)
        ensures
            final(self)@ == (WriterView { reader: Some(reader_input_id), ..old(self)@ }),
    {
        proof {
            use_type_invariant(&*self);
        }
        self.reader_input_id = Some(reader_input_id);
    }

    /// Registers the one reader of this connection, which drains into input
    /// port `reader_input_id`.
    pub fn add_reader(&mut self, reader_input_id: usize) -> (reader: BufferReader)
        requires
            old(self)@.reader is None,
        ensures
            final(self)@ == (WriterView { reader: Some(reader_input_id), ..old(self)@ }),
            reader@ == crate::buffer::ReaderView::H2D(ReaderView::fresh(old(self)@.output_id)),
    {
        self.register(reader_input_id);
        BufferReader::H2D(
            ReaderH2D { writer_output_id: self.writer_output_id, finished: false, notified: false },
        )
    }

    /// Whether the writer holds a chunk. A writer may hold a chunk and still
    /// have no room to write: a chunk in which no whole item fits.
    pub fn has_current(&self) -> (held: bool)
        ensures
            held == self@.current is Some,
    {
        self.buffer.is_some()
    }

    /// The output port that the writer feeds from.
    pub fn output_id(&self) -> (id: usize)
        ensures
            id == self@.output_id,
    {
        self.writer_output_id
    }

    /// The writable region of the current chunk: where it starts in the chunk
    /// and how many bytes it has. Takes the newest empty chunk if none is
    /// held; with none to take, the region is empty and nothing may be
    /// written.
    pub fn bytes(&mut self, pools: &mut Pools) -> (region: (usize, usize))
        ensures
            edge(final(self)@, final(pools)@) == edge(old(self)@, old(pools)@).acquire(),
            (region.0 as nat, region.1 as nat) == final(self)@.region(),
            final(self)@.wf(),
    {
        proof {
            use_type_invariant(&*self);
        }
        if self.buffer.is_none() {
            match pools.pop_empty() {
                Some(b) => {
                    self.buffer = Some(CurrentBuffer { buffer: b, offset: 0 });
                },
                None => {
                    return (0, 0);
                },
            }
        }
        match &self.buffer {
            Some(cur) => {
                let capacity: usize = cur.buffer.capacity() / self.item_size;
                proof {
                    lemma_items_fit(
                        cur.buffer@.bytes.len(),
                        self.item_size as nat,
                        cur.offset as nat,
                    );
                }
                (cur.offset * self.item_size, (capacity - cur.offset) * self.item_size)
            },
            None => (0, 0),
        }
    }

    /// Copies `data` to the start of the writable region. The bytes count as
    /// written only once `produce` says so.
    pub fn write(&mut self, data: &[u8])
        requires
            old(self)@.current is Some,
            data@.len() <= old(self)@.region().1,
        ensures
            final(self)@ == old(self)@.written(data@),
            final(self)@.wf(),
    {
        proof {
            use_type_invariant(&*self);
        }
        let mut cur: Option<CurrentBuffer> = None;
        core::mem::swap(&mut self.buffer, &mut cur);
        let CurrentBuffer { buffer, offset } = cur.unwrap();
        let mut buffer = buffer;
        let size: usize = buffer.capacity();
        proof {
            lemma_items_fit(size as nat, self.item_size as nat, offset as nat);
        }
        buffer.write_at(offset * self.item_size, data);
        self.buffer = Some(CurrentBuffer { buffer, offset });
    }

    /// Counts `amount` more items as written into the current chunk. When the
    /// chunk is thereby filled it goes to the full pool, the newest empty chunk
    /// becomes the current one, and a `Notify` for the reader comes back.
    pub fn produce(&mut self, pools: &mut Pools, amount: usize) -> (notice: Option<AsyncMessage>)
        requires
            old(self)@.current is Some,
            old(self)@.current->0.offset + amount <= capacity_items(
                old(self)@.current->0.chunk,
                old(self)@.item_size,
            ),
        ensures
            edge(final(self)@, final(pools)@) == edge(old(self)@, old(pools)@).produce(
                amount as nat,
            ),
            notice == (if edge(old(self)@, old(pools)@).completes(amount as nat) {
                Some(AsyncMessage::Notify)
            } else {
                None
            }),
            final(self)@.wf(),
    {
        proof {
            use_type_invariant(&*self);
        }
        let mut cur: Option<CurrentBuffer> = None;
        core::mem::swap(&mut self.buffer, &mut cur);
        let CurrentBuffer { buffer, offset } = cur.unwrap();
        let capacity: usize = buffer.capacity() / self.item_size;
        let offset: usize = offset + amount;
        if offset == capacity {
            proof {
                lemma_items_fit(buffer@.bytes.len(), self.item_size as nat, offset as nat);
            }
            pools.push_full(buffer.into_full(capacity * self.item_size));
            match pools.pop_empty() {
                Some(b) => {
                    self.buffer = Some(CurrentBuffer { buffer: b, offset: 0 });
                },
                None => {},
            }
            Some(AsyncMessage::Notify)
        } else {
            self.buffer = Some(CurrentBuffer { buffer, offset });
            None
        }
    }

    /// Ends the stream towards the reader. The first time, a partly filled
    /// chunk goes to the full pool with exactly the bytes written, the writer
    /// notes that its stream is ended, and `StreamInputDone` for the reader's
    /// input port comes back. Every later time nothing happens and nothing
    /// comes back. Whether the writer is marked finished plays no part.
    pub fn notify_finished(&mut self, pools: &mut Pools) -> (notice: Option<AsyncMessage>)
        requires
            !old(self)@.notified ==> old(self)@.reader is Some,
        ensures
            edge(final(self)@, final(pools)@) == edge(old(self)@, old(pools)@).wind_up(),
            notice == old(self)@.farewell(),
            final(self)@.notified,
            final(self)@.wf(),
    {
        proof {
            use_type_invariant(&*self);
        }
        if self.notified {
            return None;
        }
        self.notified = true;
        let mut cur: Option<CurrentBuffer> = None;
        core::mem::swap(&mut self.buffer, &mut cur);
        match cur {
            Some(cur) => {
                let CurrentBuffer { buffer, offset } = cur;
                if offset > 0 {
                    let size: usize = buffer.capacity();
                    proof {
                        lemma_items_fit(size as nat, self.item_size as nat, offset as nat);
                    }
                    pools.push_full(buffer.into_full(offset * self.item_size));
                }
            },
            None => {},
        }
        Some(AsyncMessage::StreamInputDone { input_id: self.reader_input_id.unwrap() })
    }

    /// Whether the writer has ended its stream towards the reader.
    pub fn notified(&self) -> (ended: bool)
        ensures
            ended == self@.notified,
    {
        self.notified
    }

    /// Marks the writer finished.
    pub fn finish(&mut self)
        ensures
            final(self)@ == (WriterView { finished: true, ..old(self)@ }),
    {
        proof {
            use_type_invariant(&*self);
        }
        self.finished = true;
    }

    /// Whether the writer is marked finished.
    pub fn finished(&self) -> (done: bool)
        ensures
            done == self@.finished,
            self@.wf(),
    {
        proof {
            use_type_invariant(self);
        }
        self.finished
    }

    /// The size of one item, in bytes.
    pub fn item_size(&self) -> (n: usize)
        ensures
            n == self@.item_size,
            n > 0,
    {
        proof {
            use_type_invariant(self);
        }
        self.item_size
    }
}

impl ReaderH2D {
    /// Hands an empty chunk to the connection, as the newest of the empty
    /// pool. The `Notify` for the writer comes back.
    pub fn submit(&mut self, pools: &mut Pools, buffer: BufferEmpty) -> (notice: AsyncMessage)
        ensures
            final(self)@ == old(self)@,
            final(pools)@ == old(pools)@.with_empty(buffer@),
            notice == AsyncMessage::Notify,
    {
        pools.push_empty(buffer);
        AsyncMessage::Notify
    }

    /// Takes all full chunks, in the order in which the writer passed them on.
    pub fn buffers(&mut self, pools: &mut Pools) -> (chunks: Vec<BufferFull>)
        ensures
            final(self)@ == old(self)@,
            full_views(chunks@) == old(pools)@.full,
            final(pools)@ == old(pools)@.without_full(),
    {
        pools.take_full()
    }

    /// Ends the connection towards the writer. The first time, the reader
    /// notes that the connection is ended and `StreamOutputDone` for the
    /// writer's output port comes back; every later time nothing happens and
    /// nothing comes back.
    pub fn notify_finished(&mut self) -> (notice: Option<AsyncMessage>)
        ensures
            final(self)@ == (ReaderView { notified: true, ..old(self)@ }),
            notice == old(self)@.farewell(),
    {
        if self.notified {
            return None;
        }
        self.notified = true;
        Some(AsyncMessage::StreamOutputDone { output_id: self.writer_output_id })
    }

    /// Whether the reader has ended the connection towards the writer.
    pub fn notified(&self) -> (ended: bool)
        ensures
            ended == self@.notified,
    {
        self.notified
    }

    /// Marks the reader finished: the writer has ended its stream.
    pub fn finish(&mut self)
        ensures
            final(self)@ == (ReaderView { finished: true, ..old(self)@ }),
    {
        self.finished = true;
    }

    /// Whether the stream is over for the reader: it is marked finished and
    /// has taken every full chunk that the writer passed on.
    pub fn finished(&self, pools: &Pools) -> (done: bool)
        ensures
            done == self@.observes_end(pools@),
    {
        self.finished && pools.full_len() == 0
    }
}

} // verus!
