//! The closed set of connection ends. A graph author picks a backend when
//! connecting two ports; the backend builds the writer and the store that the
//! two ends share, and the writer registers its reader.

use vstd::prelude::*;
use crate::circular::{ReaderCircular, Ring, RingView, WriterCircular};
use crate::d2h::{ReaderD2H, WriterD2H};
use crate::h2d::{ReaderH2D, WriterH2D};
use crate::message::AsyncMessage;
use crate::pools::{Pools, PoolsView};

verus! {

/// What the two ends of a connection share: the two pools of chunks, or a
/// ring.
pub enum StoreState {
    Pools(PoolsView),
    Ring(RingView),
}

/// What the two ends of a connection share.
#[derive(Debug)]
pub enum Store {
    /// The pools of a handoff or of a chunk pool.
    Pools(Pools),
    /// The ring of a ring connection.
    Ring(Ring),
}

impl View for Store {
    type V = StoreState;

    open spec fn view(&self) -> StoreState {
        match self {
            Store::Pools(p) => StoreState::Pools(p@),
            Store::Ring(r) => StoreState::Ring(r@),
        }
    }
}

impl Store {
    /// The store as pools, if it is pools.
    pub fn try_as_pools(&mut self) -> (pools: Option<&mut Pools>)
        ensures
            *old(self) is Pools ==> pools is Some && *pools->0 == (*old(self))->Pools_0
                && *final(self) == Store::Pools(*final(pools->0)),
            !(*old(self) is Pools) ==> pools is None && *final(self) == *old(self),
    {
        match self {
            Store::Pools(p) => Some(p),
            _ => None,
        }
    }

    /// The store as a ring, if it is a ring.
    pub fn try_as_ring(&mut self) -> (ring: Option<&mut Ring>)
        ensures
            *old(self) is Ring ==> ring is Some && *ring->0 == (*old(self))->Ring_0
                && *final(self) == Store::Ring(*final(ring->0)),
            !(*old(self) is Ring) ==> ring is None && *final(self) == *old(self),
    {
        match self {
            Store::Ring(r) => Some(r),
            _ => None,
        }
    }
}

/// What a writer of any backend is.
pub enum WriterView {
    H2D(crate::h2d::WriterView),
    D2H(crate::d2h::WriterView),
    Slab(crate::h2d::WriterView),
    Circular(crate::circular::WriterView),
}

/// What a reader of any backend is.
pub enum ReaderView {
    H2D(crate::h2d::ReaderView),
    D2H(crate::d2h::ReaderView),
    Slab(crate::d2h::ReaderView),
    Circular(crate::circular::ReaderView),
}

/// The producing end of a connection.
#[derive(Debug)]
pub enum BufferWriter {
    /// The host end of a host-to-device handoff.
    H2D(WriterH2D),
    /// The device end of a device-to-host handoff.
    D2H(WriterD2H),
    /// The producing end of a chunk pool in host memory.
    Slab(WriterH2D),
    /// The writing end of a ring in host memory.
    Circular(WriterCircular),
}

/// The consuming end of a connection.
#[derive(Debug)]
pub enum BufferReader {
    /// The device end of a host-to-device handoff.
    H2D(ReaderH2D),
    /// The host end of a device-to-host handoff.
    D2H(ReaderD2H),
    /// The consuming end of a chunk pool in host memory.
    Slab(ReaderD2H),
    /// The reading end of a ring in host memory.
    Circular(ReaderCircular),
}

impl View for BufferWriter {
    type V = WriterView;

    open spec fn view(&self) -> WriterView {
        match self {
            BufferWriter::H2D(w) => WriterView::H2D(w@),
            BufferWriter::D2H(w) => WriterView::D2H(w@),
            BufferWriter::Slab(w) => WriterView::Slab(w@),
            BufferWriter::Circular(w) => WriterView::Circular(w@),
        }
    }
}

impl View for BufferReader {
    type V = ReaderView;

    open spec fn view(&self) -> ReaderView {
        match self {
            BufferReader::H2D(r) => ReaderView::H2D(r@),
            BufferReader::D2H(r) => ReaderView::D2H(r@),
            BufferReader::Slab(r) => ReaderView::Slab(r@),
            BufferReader::Circular(r) => ReaderView::Circular(r@),
        }
    }
}

impl WriterView {
    /// The input port of the registered reader, if there is one.
    pub open spec fn reader(self) -> Option<usize> {
        match self {
            WriterView::H2D(w) => w.reader,
            WriterView::D2H(w) => w.reader,
            WriterView::Slab(w) => w.reader,
            WriterView::Circular(w) => w.reader,
        }
    }

    /// Whether the writer is marked finished.
    pub open spec fn finished(self) -> bool {
        match self {
            WriterView::H2D(w) => w.finished,
            WriterView::D2H(w) => w.finished,
            WriterView::Slab(w) => w.finished,
            WriterView::Circular(w) => w.finished,
        }
    }

    /// Whether the writer has ended its stream towards the reader.
    pub open spec fn notified(self) -> bool {
        match self {
            WriterView::H2D(w) => w.notified,
            WriterView::D2H(w) => w.notified,
            WriterView::Slab(w) => w.notified,
            WriterView::Circular(w) => w.notified,
        }
    }

    /// The writer once a reader on input port `input_id` is registered.
    pub open spec fn registered(self, input_id: usize) -> WriterView {
        match self {
            WriterView::H2D(w) => WriterView::H2D(
                crate::h2d::WriterView { reader: Some(input_id), ..w },
            ),
            WriterView::D2H(w) => WriterView::D2H(
                crate::d2h::WriterView { reader: Some(input_id), ..w },
            ),
            WriterView::Slab(w) => WriterView::Slab(
                crate::h2d::WriterView { reader: Some(input_id), ..w },
            ),
            WriterView::Circular(w) => WriterView::Circular(
                crate::circular::WriterView { reader: Some(input_id), ..w },
            ),
        }
    }

    /// The writer once it is marked finished.
    pub open spec fn marked_finished(self) -> WriterView {
        match self {
            WriterView::H2D(w) => WriterView::H2D(crate::h2d::WriterView { finished: true, ..w }),
            WriterView::D2H(w) => WriterView::D2H(crate::d2h::WriterView { finished: true, ..w }),
            WriterView::Slab(w) => WriterView::Slab(
                crate::h2d::WriterView { finished: true, ..w },
            ),
            WriterView::Circular(w) => WriterView::Circular(
                crate::circular::WriterView { finished: true, ..w },
            ),
        }
    }

    /// Whether `store` is of the kind that the writer works on: pools for a
    /// handoff or a chunk pool, a ring for a ring.
    pub open spec fn fits(self, store: StoreState) -> bool {
        match self {
            WriterView::Circular(_) => store is Ring,
            _ => store is Pools,
        }
    }

    /// The writer and the store after the writer has ended its stream: a host
    /// writer on pools passes a partly filled chunk on; a device writer holds
    /// none; a ring holds all that was produced already. Each notes that its
    /// stream is ended, and ending it again changes nothing.
    pub open spec fn wound_up(self, store: StoreState) -> (WriterView, StoreState)
        recommends
            self.fits(store),
    {
        match self {
            WriterView::H2D(w) => match store {
                StoreState::Pools(pools) => {
                    let end = crate::h2d::edge(w, pools).wind_up();
                    (WriterView::H2D(end.writer), StoreState::Pools(end.pools))
                },
                StoreState::Ring(_) => (self, store),
            },
            WriterView::Slab(w) => match store {
                StoreState::Pools(pools) => {
                    let end = crate::h2d::edge(w, pools).wind_up();
                    (WriterView::Slab(end.writer), StoreState::Pools(end.pools))
                },
                StoreState::Ring(_) => (self, store),
            },
            WriterView::D2H(w) => (
                WriterView::D2H(crate::d2h::WriterView { notified: true, ..w }),
                store,
            ),
            WriterView::Circular(w) => (
                WriterView::Circular(crate::circular::WriterView { notified: true, ..w }),
                store,
            ),
        }
    }

    /// The message with which the writer ends its stream: `StreamInputDone`
    /// for the reader's input port the first time, none after that.
    pub open spec fn farewell(self) -> Option<AsyncMessage> {
        if self.notified() {
            None
        } else {
            Some(AsyncMessage::StreamInputDone { input_id: self.reader()->0 })
        }
    }

    /// The reader that the writer makes when it registers one.
    pub open spec fn reader_made(self) -> ReaderView {
        match self {
            WriterView::H2D(w) => ReaderView::H2D(crate::h2d::ReaderView::fresh(w.output_id)),
            WriterView::D2H(w) => ReaderView::D2H(
                crate::d2h::ReaderView::fresh(w.item_size, w.output_id),
            ),
            WriterView::Slab(w) => ReaderView::Slab(
                crate::d2h::ReaderView::fresh(w.item_size, w.output_id),
            ),
            WriterView::Circular(w) => ReaderView::Circular(
                crate::circular::ReaderView::fresh(w.output_id),
            ),
        }
    }
}

impl ReaderView {
    /// Whether the reader is marked finished: the writer has ended its
    /// stream.
    pub open spec fn marked(self) -> bool {
        match self {
            ReaderView::H2D(r) => r.finished,
            ReaderView::D2H(r) => r.finished,
            ReaderView::Slab(r) => r.finished,
            ReaderView::Circular(r) => r.finished,
        }
    }

    /// Whether the reader has ended the connection towards the writer.
    pub open spec fn notified(self) -> bool {
        match self {
            ReaderView::H2D(r) => r.notified,
            ReaderView::D2H(r) => r.notified,
            ReaderView::Slab(r) => r.notified,
            ReaderView::Circular(r) => r.notified,
        }
    }

    /// Whether `store` is of the kind that the reader works on: pools for a
    /// handoff or a chunk pool, a ring for a ring.
    pub open spec fn fits(self, store: StoreState) -> bool {
        match self {
            ReaderView::Circular(_) => store is Ring,
            _ => store is Pools,
        }
    }

    /// Whether the stream is over for the reader: it is marked finished and
    /// nothing that the writer passed on is left for it in `store`.
    pub open spec fn observes_end(self, store: StoreState) -> bool
        recommends
            self.fits(store),
    {
        match self {
            ReaderView::H2D(r) => store matches StoreState::Pools(pools) && r.observes_end(pools),
            ReaderView::D2H(r) => store matches StoreState::Pools(pools) && r.observes_end(pools),
            ReaderView::Slab(r) => store matches StoreState::Pools(pools) && r.observes_end(
                pools,
            ),
            ReaderView::Circular(r) => store matches StoreState::Ring(ring) && r.observes_end(
                ring,
            ),
        }
    }

    /// The reader once it has ended the connection towards the writer.
    pub open spec fn said_farewell(self) -> ReaderView {
        match self {
            ReaderView::H2D(r) => ReaderView::H2D(crate::h2d::ReaderView { notified: true, ..r }),
            ReaderView::D2H(r) => ReaderView::D2H(crate::d2h::ReaderView { notified: true, ..r }),
            ReaderView::Slab(r) => ReaderView::Slab(
                crate::d2h::ReaderView { notified: true, ..r },
            ),
            ReaderView::Circular(r) => ReaderView::Circular(
                crate::circular::ReaderView { notified: true, ..r },
            ),
        }
    }

    /// The output port of the writer that feeds the reader.
    pub open spec fn output_id(self) -> usize {
        match self {
            ReaderView::H2D(r) => r.output_id,
            ReaderView::D2H(r) => r.output_id,
            ReaderView::Slab(r) => r.output_id,
            ReaderView::Circular(r) => r.output_id,
        }
    }

    /// The reader once it is marked finished.
    pub open spec fn marked_finished(self) -> ReaderView {
        match self {
            ReaderView::H2D(r) => ReaderView::H2D(crate::h2d::ReaderView { finished: true, ..r }),
            ReaderView::D2H(r) => ReaderView::D2H(crate::d2h::ReaderView { finished: true, ..r }),
            ReaderView::Slab(r) => ReaderView::Slab(
                crate::d2h::ReaderView { finished: true, ..r },
            ),
            ReaderView::Circular(r) => ReaderView::Circular(
                crate::circular::ReaderView { finished: true, ..r },
            ),
        }
    }

    /// The message with which the reader ends the connection:
    /// `StreamOutputDone` for the writer's output port the first time, none
    /// after that.
    pub open spec fn farewell(self) -> Option<AsyncMessage> {
        if self.notified() {
            None
        } else {
            Some(AsyncMessage::StreamOutputDone { output_id: self.output_id() })
        }
    }
}

/// A strategy that builds the writer of a connection and the store that the
/// two ends will share.
pub trait BufferBuilder {
    /// The writer that `build` makes.
    spec fn built(&self, item_size: usize, writer_output_id: usize) -> WriterView;

    /// The store that `store` makes.
    spec fn stocked(&self, item_size: usize) -> StoreState;

    /// A writer for items of `item_size` bytes on output port `writer_output_id`.
    fn build(&self, item_size: usize, writer_output_id: usize) -> (writer: BufferWriter)
        requires
            item_size > 0,
        ensures
            writer@ == self.built(item_size, writer_output_id),
            writer@.reader() is None,
    ;

    /// The store of a new connection for items of `item_size` bytes.
    fn store(&self, item_size: usize) -> (store: Store)
        requires
            item_size > 0,
        ensures
            store@ == self.stocked(item_size),
            self.built(item_size, 0).fits(store@),
    ;
}

impl BufferWriter {
    /// Registers the one reader of the connection.
    pub fn add_reader(&mut self, reader_input_id: usize) -> (reader: BufferReader)
        requires
            old(self)@.reader() is None,
        ensures
            final(self)@ == old(self)@.registered(reader_input_id),
            reader@ == old(self)@.reader_made(),
    {
        match self {
            BufferWriter::H2D(w) => w.add_reader(reader_input_id),
            BufferWriter::D2H(w) => w.add_reader(reader_input_id),
            BufferWriter::Slab(w) => {
                let reader = ReaderD2H::new(w.item_size(), w.output_id());
                w.register(reader_input_id);
                BufferReader::Slab(reader)
            },
            BufferWriter::Circular(w) => w.add_reader(reader_input_id),
        }
    }

    /// Whether the writer has ended its stream towards the reader.
    pub fn notified(&self) -> (ended: bool)
        ensures
            ended == self@.notified(),
    {
        match self {
            BufferWriter::H2D(w) => w.notified(),
            BufferWriter::D2H(w) => w.notified(),
            BufferWriter::Slab(w) => w.notified(),
            BufferWriter::Circular(w) => w.notified(),
        }
    }

    /// Marks the writer finished.
    pub fn finish(&mut self)
        ensures
            final(self)@ == old(self)@.marked_finished(),
    {
        match self {
            BufferWriter::H2D(w) => w.finish(),
            BufferWriter::D2H(w) => w.finish(),
            BufferWriter::Slab(w) => w.finish(),
            BufferWriter::Circular(w) => w.finish(),
        }
    }

    /// Whether the writer is marked finished.
    pub fn finished(&self) -> (done: bool)
        ensures
            done == self@.finished(),
    {
        match self {
            BufferWriter::H2D(w) => w.finished(),
            BufferWriter::D2H(w) => w.finished(),
            BufferWriter::Slab(w) => w.finished(),
            BufferWriter::Circular(w) => w.finished(),
        }
    }

    /// Ends the stream towards the reader, over the store of the connection.
    /// The first time, what the writer holds partly filled is passed on, the
    /// writer notes that its stream is ended, and `StreamInputDone` for the
    /// reader's input port comes back. Every later time nothing happens and
    /// nothing comes back.
    pub fn notify_finished(&mut self, store: &mut Store) -> (notice: Option<AsyncMessage>)
        requires
            !old(self)@.notified() ==> old(self)@.reader() is Some,
            old(self)@.fits(old(store)@),
        ensures
            (final(self)@, final(store)@) == old(self)@.wound_up(old(store)@),
            notice == old(self)@.farewell(),
    {
        match self {
            BufferWriter::H2D(w) => match store {
                Store::Pools(pools) => w.notify_finished(pools),
                Store::Ring(_) => None,
            },
            BufferWriter::D2H(w) => w.notify_finished(),
            BufferWriter::Slab(w) => match store {
                Store::Pools(pools) => w.notify_finished(pools),
                Store::Ring(_) => None,
            },
            BufferWriter::Circular(w) => w.notify_finished(),
        }
    }

    /// The writer as the writing end of a ring, if it is one.
    pub fn try_as_circular(&mut self) -> (writer: Option<&mut WriterCircular>)
        ensures
            *old(self) is Circular ==> writer is Some && *writer->0 == (*old(self))->Circular_0
                && *final(self) == BufferWriter::Circular(*final(writer->0)),
            !(*old(self) is Circular) ==> writer is None && *final(self) == *old(self),
    {
        match self {
            BufferWriter::Circular(w) => Some(w),
            _ => None,
        }
    }

    /// The writer as the host end of a host-to-device handoff, if it is one.
    pub fn try_as_h2d(&mut self) -> (writer: Option<&mut WriterH2D>)
        ensures
            *old(self) is H2D ==> writer is Some && *writer->0 == (*old(self))->H2D_0
                && *final(self) == BufferWriter::H2D(*final(writer->0)),
            !(*old(self) is H2D) ==> writer is None && *final(self) == *old(self),
    {
        match self {
            BufferWriter::H2D(w) => Some(w),
            _ => None,
        }
    }

    /// The writer as the device end of a device-to-host handoff, if it is one.
    pub fn try_as_d2h(&mut self) -> (writer: Option<&mut WriterD2H>)
        ensures
            *old(self) is D2H ==> writer is Some && *writer->0 == (*old(self))->D2H_0
                && *final(self) == BufferWriter::D2H(*final(writer->0)),
            !(*old(self) is D2H) ==> writer is None && *final(self) == *old(self),
    {
        match self {
            BufferWriter::D2H(w) => Some(w),
            _ => None,
        }
    }

    /// The writer as the producing end of a chunk pool, if it is one.
    pub fn try_as_slab(&mut self) -> (writer: Option<&mut WriterH2D>)
        ensures
            *old(self) is Slab ==> writer is Some && *writer->0 == (*old(self))->Slab_0
                && *final(self) == BufferWriter::Slab(*final(writer->0)),
            !(*old(self) is Slab) ==> writer is None && *final(self) == *old(self),
    {
        match self {
            BufferWriter::Slab(w) => Some(w),
            _ => None,
        }
    }
}

impl BufferReader {
    /// Whether the reader has ended the connection towards the writer.
    pub fn notified(&self) -> (ended: bool)
        ensures
            ended == self@.notified(),
    {
        match self {
            BufferReader::H2D(r) => r.notified(),
            BufferReader::D2H(r) => r.notified(),
            BufferReader::Slab(r) => r.notified(),
            BufferReader::Circular(r) => r.notified(),
        }
    }

    /// Marks the reader finished: the writer has ended its stream.
    pub fn finish(&mut self)
        ensures
            final(self)@ == old(self)@.marked_finished(),
    {
        match self {
            BufferReader::H2D(r) => r.finish(),
            BufferReader::D2H(r) => r.finish(),
            BufferReader::Slab(r) => r.finish(),
            BufferReader::Circular(r) => r.finish(),
        }
    }

    /// Whether the stream is over for the reader: it is marked finished and
    /// nothing that the writer passed on is left for it in the store of the
    /// connection.
    pub fn finished(&self, store: &Store) -> (done: bool)
        requires
            self@.fits(store@),
        ensures
            done == self@.observes_end(store@),
    {
        match self {
            BufferReader::H2D(r) => match store {
                Store::Pools(pools) => r.finished(pools),
                Store::Ring(_) => false,
            },
            BufferReader::D2H(r) => match store {
                Store::Pools(pools) => r.finished(pools),
                Store::Ring(_) => false,
            },
            BufferReader::Slab(r) => match store {
                Store::Pools(pools) => r.finished(pools),
                Store::Ring(_) => false,
            },
            BufferReader::Circular(r) => match store {
                Store::Ring(ring) => r.finished(ring),
                Store::Pools(_) => false,
            },
        }
    }

    /// Ends the connection towards the writer. The first time, the reader
    /// notes that the connection is ended and `StreamOutputDone` for the
    /// writer's output port comes back; every later time nothing happens and
    /// nothing comes back.
    pub fn notify_finished(&mut self) -> (notice: Option<AsyncMessage>)
        ensures
            final(self)@ == old(self)@.said_farewell(),
            notice == old(self)@.farewell(),
    {
        match self {
            BufferReader::H2D(r) => r.notify_finished(),
            BufferReader::D2H(r) => r.notify_finished(),
            BufferReader::Slab(r) => r.notify_finished(),
            BufferReader::Circular(r) => r.notify_finished(),
        }
    }

    /// The reader as the reading end of a ring, if it is one.
    pub fn try_as_circular(&mut self) -> (reader: Option<&mut ReaderCircular>)
        ensures
            *old(self) is Circular ==> reader is Some && *reader->0 == (*old(self))->Circular_0
                && *final(self) == BufferReader::Circular(*final(reader->0)),
            !(*old(self) is Circular) ==> reader is None && *final(self) == *old(self),
    {
        match self {
            BufferReader::Circular(r) => Some(r),
            _ => None,
        }
    }

    /// The reader as the device end of a host-to-device handoff, if it is one.
    pub fn try_as_h2d(&mut self) -> (reader: Option<&mut ReaderH2D>)
        ensures
            *old(self) is H2D ==> reader is Some && *reader->0 == (*old(self))->H2D_0
                && *final(self) == BufferReader::H2D(*final(reader->0)),
            !(*old(self) is H2D) ==> reader is None && *final(self) == *old(self),
    {
        match self {
            BufferReader::H2D(r) => Some(r),
            _ => None,
        }
    }

    /// The reader as the host end of a device-to-host handoff, if it is one.
    pub fn try_as_d2h(&mut self) -> (reader: Option<&mut ReaderD2H>)
        ensures
            *old(self) is D2H ==> reader is Some && *reader->0 == (*old(self))->D2H_0
                && *final(self) == BufferReader::D2H(*final(reader->0)),
            !(*old(self) is D2H) ==> reader is None && *final(self) == *old(self),
    {
        match self {
            BufferReader::D2H(r) => Some(r),
            _ => None,
        }
    }

    /// The reader as the consuming end of a chunk pool, if it is one.
    pub fn try_as_slab(&mut self) -> (reader: Option<&mut ReaderD2H>)
        ensures
            *old(self) is Slab ==> reader is Some && *reader->0 == (*old(self))->Slab_0
                && *final(self) == BufferReader::Slab(*final(reader->0)),
            !(*old(self) is Slab) ==> reader is None && *final(self) == *old(self),
    {
        match self {
            BufferReader::Slab(r) => Some(r),
            _ => None,
        }
    }
}

} // verus!
