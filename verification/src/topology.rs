//! The registry of blocks and connections. A block gets its identity when it
//! is added; a stream connection binds an output of one block to an input of
//! another through a backend; a message connection pairs two message ports.

use vstd::prelude::*;
use crate::block::{named, Block, BlockView};
use crate::buffer::{BufferBuilder, Store, StoreState, WriterView};
use crate::pools::{Pools, PoolsView};

verus! {

/// Why a connection was refused.
#[derive(Debug, Clone, Copy, PartialEq, Eq)]
pub enum ConnectError {
    /// One of the two blocks is not in the registry.
    UnknownBlock,
    /// A block has no port of the given name.
    UnknownPort,
    /// The two ports carry items of different sizes.
    ItemSizeMismatch,
    /// The ports carry items of no size.
    InvalidItemSize,
    /// One of the two ports is bound already.
    PortBound,
}

/// A message connection: from an output of one block to an input of another.
#[derive(Debug, Clone, Copy, PartialEq, Eq)]
pub struct MessageEdge {
    pub src_block: usize,
    pub src_port: usize,
    pub dst_block: usize,
    pub dst_port: usize,
}

/// What a stream connection is: its two ports and its store.
pub struct StreamEdgeView {
    pub src_block: usize,
    pub src_port: usize,
    pub dst_block: usize,
    pub dst_port: usize,
    pub store: StoreState,
}

/// A stream connection with the store its two ends share.
#[derive(Debug)]
pub struct StreamEdge {
    src_block: usize,
    src_port: usize,
    dst_block: usize,
    dst_port: usize,
    store: Store,
}

impl View for StreamEdge {
    type V = StreamEdgeView;

    closed spec fn view(&self) -> StreamEdgeView {
        StreamEdgeView {
            src_block: self.src_block,
            src_port: self.src_port,
            dst_block: self.dst_block,
            dst_port: self.dst_port,
            store: self.store@,
        }
    }
}

impl StreamEdge {
    /// The block and the output that feed the connection.
    pub fn source(&self) -> (end: (usize, usize))
        ensures
            end == (self@.src_block, self@.src_port),
    {
        (self.src_block, self.src_port)
    }

    /// The block and the input that the connection feeds.
    pub fn destination(&self) -> (end: (usize, usize))
        ensures
            end == (self@.dst_block, self@.dst_port),
    {
        (self.dst_block, self.dst_port)
    }

    /// Hands the store out, to whoever runs the two ends, and leaves pools
    /// without chunks in its place.
    pub fn take_store(&mut self) -> (store: Store)
        ensures
            store@ == old(self)@.store,
            final(self)@ == (StreamEdgeView {
                store: StoreState::Pools(PoolsView::vacant()),
                ..old(self)@
            }),
    {
        let mut taken = Store::Pools(Pools::new());
        core::mem::swap(&mut self.store, &mut taken);
        taken
    }

    /// Takes the store back.
    pub fn restore_store(&mut self, store: Store)
        ensures
            final(self)@ == (StreamEdgeView { store: store@, ..old(self)@ }),
    {
        self.store = store;
    }

    /// The store of the connection.
    pub fn store(&mut self) -> (store: &mut Store)
        ensures
            (*store)@ == old(self)@.store,
            final(self)@ == (StreamEdgeView { store: (*final(store))@, ..old(self)@ }),
    {
        &mut self.store
    }
}

/// What a registry is: its blocks by identity, and its connections in the
/// order in which they were made.
pub struct TopologyView<K> {
    pub blocks: Seq<BlockView<K>>,
    pub stream_edges: Seq<StreamEdgeView>,
    pub message_edges: Seq<MessageEdge>,
}

impl<K> TopologyView<K> {
    /// A registry without blocks or connections.
    pub open spec fn vacant() -> TopologyView<K> {
        TopologyView {
            blocks: Seq::empty(),
            stream_edges: Seq::empty(),
            message_edges: Seq::empty(),
        }
    }

    /// Whether a stream connection from the output called `src_port` of block
    /// `src` to the input called `dst_port` of block `dst` can be made, and
    /// between which ports. The checks come in a fixed order: both blocks
    /// exist, both ports exist, their item sizes agree and are not 0, neither
    /// port is bound.
    pub open spec fn stream_verdict(
        self,
        src: usize,
        src_port: Seq<char>,
        dst: usize,
        dst_port: Seq<char>,
    ) -> Result<(int, int), ConnectError> {
        if src >= self.blocks.len() || dst >= self.blocks.len() {
            Err(ConnectError::UnknownBlock)
        } else {
            let found_out = named(self.blocks[src as int].sio.output_names(), src_port);
            let found_in = named(self.blocks[dst as int].sio.input_names(), dst_port);
            if found_out is None || found_in is None {
                Err(ConnectError::UnknownPort)
            } else {
                let output = self.blocks[src as int].sio.outputs[found_out->0];
                let input = self.blocks[dst as int].sio.inputs[found_in->0];
                if output.item_size != input.item_size {
                    Err(ConnectError::ItemSizeMismatch)
                } else if output.item_size == 0 {
                    Err(ConnectError::InvalidItemSize)
                } else if output.writer is Some || input.reader is Some {
                    Err(ConnectError::PortBound)
                } else {
                    Ok((found_out->0, found_in->0))
                }
            }
        }
    }

    /// The registry after output `src_port` of block `src` was bound to
    /// `writer`, input `dst_port` of block `dst` to the reader that `writer`
    /// makes, and the connection recorded with `store`.
    pub open spec fn with_stream(
        self,
        src: usize,
        src_port: int,
        dst: usize,
        dst_port: int,
        writer: WriterView,
        store: StoreState,
    ) -> TopologyView<K> {
        let bound = self.blocks.update(
            src as int,
            self.blocks[src as int].with_writer(src_port, writer.registered(dst_port as usize)),
        );
        TopologyView {
            blocks: bound.update(
                dst as int,
                bound[dst as int].with_reader(dst_port, writer.reader_made()),
            ),
            stream_edges: self.stream_edges.push(
                StreamEdgeView {
                    src_block: src,
                    src_port: src_port as usize,
                    dst_block: dst,
                    dst_port: dst_port as usize,
                    store,
                },
            ),
            ..self
        }
    }

    /// Whether a message connection from the message output called `src_port`
    /// of block `src` to the message input called `dst_port` of block `dst`
    /// can be made, and which one it is.
    pub open spec fn message_verdict(
        self,
        src: usize,
        src_port: Seq<char>,
        dst: usize,
        dst_port: Seq<char>,
    ) -> Result<MessageEdge, ConnectError> {
        if src >= self.blocks.len() || dst >= self.blocks.len() {
            Err(ConnectError::UnknownBlock)
        } else {
            let found_out = named(self.blocks[src as int].mio.outputs, src_port);
            let found_in = named(self.blocks[dst as int].mio.inputs, dst_port);
            if found_out is None || found_in is None {
                Err(ConnectError::UnknownPort)
            } else {
                Ok(
                    MessageEdge {
                        src_block: src,
                        src_port: found_out->0 as usize,
                        dst_block: dst,
                        dst_port: found_in->0 as usize,
                    },
                )
            }
        }
    }

    /// Whether message input `port_id` of block `block_id` exists.
    pub open spec fn has_message_input(self, block_id: usize, port_id: usize) -> bool {
        block_id < self.blocks.len() && port_id < self.blocks[block_id as int].mio.inputs.len()
    }

    /// Whether output `port` of block `block` exists and is bound.
    pub open spec fn output_bound(self, block: usize, port: usize) -> bool {
        &&& block < self.blocks.len()
        &&& port < self.blocks[block as int].sio.outputs.len()
        &&& self.blocks[block as int].sio.outputs[port as int].writer is Some
    }

    /// Whether input `port` of block `block` exists and is bound.
    pub open spec fn input_bound(self, block: usize, port: usize) -> bool {
        &&& block < self.blocks.len()
        &&& port < self.blocks[block as int].sio.inputs.len()
        &&& self.blocks[block as int].sio.inputs[port as int].reader is Some
    }

    /// Whether connection `at` is the first that output `port` of block
    /// `block` feeds.
    pub open spec fn is_edge_from(self, block: usize, port: usize, at: int) -> bool {
        &&& 0 <= at < self.stream_edges.len()
        &&& self.stream_edges[at].src_block == block
        &&& self.stream_edges[at].src_port == port
        &&& forall|j: int|
            0 <= j < at ==> !((#[trigger] self.stream_edges[j]).src_block == block
                && self.stream_edges[j].src_port == port)
    }

    /// Whether connection `at` is the first that feeds input `port` of block
    /// `block`.
    pub open spec fn is_edge_to(self, block: usize, port: usize, at: int) -> bool {
        &&& 0 <= at < self.stream_edges.len()
        &&& self.stream_edges[at].dst_block == block
        &&& self.stream_edges[at].dst_port == port
        &&& forall|j: int|
            0 <= j < at ==> !((#[trigger] self.stream_edges[j]).dst_block == block
                && self.stream_edges[j].dst_port == port)
    }

    /// No block has more ports than can be numbered.
    pub open spec fn countable(self) -> bool {
        forall|b: int|
            0 <= b < self.blocks.len() ==> (#[trigger] self.blocks[b]).sio.outputs.len()
                <= usize::MAX && self.blocks[b].sio.inputs.len() <= usize::MAX
    }

    /// Every stream connection runs between two ports that exist and are
    /// bound, and no port is an end of two connections.
    pub open spec fn consistent(self) -> bool {
        &&& forall|i: int|
            0 <= i < self.stream_edges.len() ==> self.output_bound(
                (#[trigger] self.stream_edges[i]).src_block,
                self.stream_edges[i].src_port,
            ) && self.input_bound(self.stream_edges[i].dst_block, self.stream_edges[i].dst_port)
        &&& forall|i: int, j: int|
            0 <= i < j < self.stream_edges.len() ==> {
                let a = #[trigger] self.stream_edges[i];
                let b = #[trigger] self.stream_edges[j];
                &&& !(a.src_block == b.src_block && a.src_port == b.src_port)
                &&& !(a.dst_block == b.dst_block && a.dst_port == b.dst_port)
            }
    }
}

/// A registry without blocks is consistent, and adding a block keeps a
/// registry consistent.
pub proof fn lemma_add_block_keeps_consistent<K>(t: TopologyView<K>, block: BlockView<K>)
    requires
        t.consistent(),
    ensures
        TopologyView::<K>::vacant().consistent(),
        (TopologyView { blocks: t.blocks.push(block), ..t }).consistent(),
{
    let after = TopologyView { blocks: t.blocks.push(block), ..t };
    assert forall|i: int| 0 <= i < after.stream_edges.len() implies after.output_bound(
        (#[trigger] after.stream_edges[i]).src_block,
        after.stream_edges[i].src_port,
    ) && after.input_bound(after.stream_edges[i].dst_block, after.stream_edges[i].dst_port) by {
        let e = t.stream_edges[i];
        assert(t.output_bound(e.src_block, e.src_port));
        assert(t.input_bound(e.dst_block, e.dst_port));
        assert(after.blocks[e.src_block as int] == t.blocks[e.src_block as int]);
        assert(after.blocks[e.dst_block as int] == t.blocks[e.dst_block as int]);
    }
}

/// Ports are bound once. A stream connection that is made keeps the registry
/// consistent: its two ports were ends of no connection before, and every
/// connection made before still runs between bound ports.
pub proof fn lemma_connect_keeps_consistent<K>(
    t: TopologyView<K>,
    src: usize,
    src_port: Seq<char>,
    dst: usize,
    dst_port: Seq<char>,
    writer: WriterView,
    store: StoreState,
)
    requires
        t.consistent(),
        t.countable(),
        t.stream_verdict(src, src_port, dst, dst_port) is Ok,
    ensures
        t.with_stream(
            src,
            t.stream_verdict(src, src_port, dst, dst_port)->Ok_0.0,
            dst,
            t.stream_verdict(src, src_port, dst, dst_port)->Ok_0.1,
            writer,
            store,
        ).consistent(),
{
    let ports = t.stream_verdict(src, src_port, dst, dst_port)->Ok_0;
    let out_id = ports.0;
    let in_id = ports.1;
    let names_out = t.blocks[src as int].sio.output_names();
    let names_in = t.blocks[dst as int].sio.input_names();
    assert(crate::block::is_first_named(names_out, src_port, out_id));
    assert(crate::block::is_first_named(names_in, dst_port, in_id));
    assert(0 <= out_id < t.blocks[src as int].sio.outputs.len());
    assert(0 <= in_id < t.blocks[dst as int].sio.inputs.len());
    assert(t.blocks[src as int].sio.outputs.len() <= usize::MAX);
    assert(t.blocks[dst as int].sio.inputs.len() <= usize::MAX);
    let after = t.with_stream(src, out_id, dst, in_id, writer, store);
    let bound = t.blocks.update(
        src as int,
        t.blocks[src as int].with_writer(out_id, writer.registered(in_id as usize)),
    );
    assert(after.blocks == bound.update(
        dst as int,
        bound[dst as int].with_reader(in_id, writer.reader_made()),
    ));
    assert(after.blocks.len() == t.blocks.len());
    assert forall|b: usize, p: usize| t.output_bound(b, p) implies after.output_bound(b, p) by {
        if b == src {
            if b == dst {
            }
        }
    }
    assert forall|b: usize, p: usize| t.input_bound(b, p) implies after.input_bound(b, p) by {
        if b == dst {
        }
    }
    assert(after.output_bound(src, out_id as usize));
    assert(after.input_bound(dst, in_id as usize));
    assert(!t.output_bound(src, out_id as usize));
    assert(!t.input_bound(dst, in_id as usize));
    let n = t.stream_edges.len() as int;
    assert forall|i: int| 0 <= i < after.stream_edges.len() implies after.output_bound(
        (#[trigger] after.stream_edges[i]).src_block,
        after.stream_edges[i].src_port,
    ) && after.input_bound(after.stream_edges[i].dst_block, after.stream_edges[i].dst_port) by {
        if i < n {
            let e = t.stream_edges[i];
            assert(after.stream_edges[i] == e);
            assert(t.output_bound(e.src_block, e.src_port));
            assert(t.input_bound(e.dst_block, e.dst_port));
        }
    }
    assert forall|i: int, j: int| 0 <= i < j < after.stream_edges.len() implies {
        let a = #[trigger] after.stream_edges[i];
        let b = #[trigger] after.stream_edges[j];
        &&& !(a.src_block == b.src_block && a.src_port == b.src_port)
        &&& !(a.dst_block == b.dst_block && a.dst_port == b.dst_port)
    } by {
        let a = after.stream_edges[i];
        assert(a == t.stream_edges[i]);
        if j < n {
            assert(after.stream_edges[j] == t.stream_edges[j]);
        } else {
            assert(t.output_bound(a.src_block, a.src_port));
            assert(t.input_bound(a.dst_block, a.dst_port));
        }
    }
}

/// The registry of blocks and connections.
#[derive(Debug)]
pub struct Topology<K> {
    blocks: Vec<Block<K>>,
    stream_edges: Vec<StreamEdge>,
    message_edges: Vec<MessageEdge>,
}

impl<K> View for Topology<K> {
    type V = TopologyView<K>;

    closed spec fn view(&self) -> TopologyView<K> {
        TopologyView {
            blocks: self.blocks@.map_values(|b: Block<K>| b@),
            stream_edges: self.stream_edges@.map_values(|e: StreamEdge| e@),
            message_edges: self.message_edges@,
        }
    }
}

impl<K> Topology<K> {
    /// A registry without blocks or connections.
    pub fn new() -> (topology: Topology<K>)
        ensures
            topology@ == TopologyView::<K>::vacant(),
    {
        let topology = Topology {
            blocks: Vec::new(),
            stream_edges: Vec::new(),
            message_edges: Vec::new(),
        };
        assert(topology@.blocks =~= Seq::empty());
        assert(topology@.stream_edges =~= Seq::empty());
        topology
    }

    /// Number of blocks.
    pub fn blocks_len(&self) -> (n: usize)
        ensures
            n == self@.blocks.len(),
    {
        self.blocks.len()
    }

    /// Adds `block`. Its identity is the number of blocks added before it.
    pub fn add_block(&mut self, block: Block<K>) -> (id: usize)
        ensures
            id == old(self)@.blocks.len(),
            final(self)@ == (TopologyView { blocks: old(self)@.blocks.push(block@), ..old(self)@ }),
    {
        let id = self.blocks.len();
        self.blocks.push(block);
        assert(self@.blocks =~= old(self)@.blocks.push(block@));
        id
    }

    /// The block with identity `id`, if there is one.
    pub fn block_ref(&self, id: usize) -> (block: Option<&Block<K>>)
        ensures
            id < self@.blocks.len() ==> block is Some && block->0@ == self@.blocks[id as int],
            id >= self@.blocks.len() ==> block is None,
    {
        if id < self.blocks.len() {
            Some(&self.blocks[id])
        } else {
            None
        }
    }

    /// The block with identity `id`, to change it.
    pub fn block_mut(&mut self, id: usize) -> (block: Option<&mut Block<K>>)
        ensures
            id >= old(self)@.blocks.len() ==> block is None && *final(self) == *old(self),
            id < old(self)@.blocks.len() ==> block is Some && (*block->0)@ == old(self)@.blocks[id as int]
                && final(self)@ == (TopologyView {
                blocks: old(self)@.blocks.update(id as int, (*final(block->0))@),
                ..old(self)@
            }),
    {
        if id < self.blocks.len() {
            let ghost before = self.blocks@;
            let block = &mut self.blocks[id];
            proof {
                assert(after_borrow(self.blocks)@ == before.update(id as int, *final(block)));
                assert(after_borrow(self.blocks)@.map_values(|b: Block<K>| b@)
                    =~= before.map_values(|b: Block<K>| b@).update(id as int, (*final(block))@));
            }
            Some(block)
        } else {
            None
        }
    }

    /// Stream connection `id`, to change its store.
    pub fn stream_edge(&mut self, id: usize) -> (edge: Option<&mut StreamEdge>)
        ensures
            id >= old(self)@.stream_edges.len() ==> edge is None && *final(self) == *old(self),
            id < old(self)@.stream_edges.len() ==> edge is Some && (*edge->0)@
                == old(self)@.stream_edges[id as int] && final(self)@ == (TopologyView {
                stream_edges: old(self)@.stream_edges.update(id as int, (*final(edge->0))@),
                ..old(self)@
            }),
    {
        if id < self.stream_edges.len() {
            let ghost before = self.stream_edges@;
            let edge = &mut self.stream_edges[id];
            proof {
                assert(after_borrow(self.stream_edges)@ == before.update(id as int, *final(edge)));
                assert(after_borrow(self.stream_edges)@.map_values(|e: StreamEdge| e@)
                    =~= before.map_values(|e: StreamEdge| e@).update(id as int, (*final(edge))@));
            }
            Some(edge)
        } else {
            None
        }
    }

    /// Number of stream connections.
    pub fn stream_edges_len(&self) -> (n: usize)
        ensures
            n == self@.stream_edges.len(),
    {
        self.stream_edges.len()
    }

    /// The message connections, in the order in which they were made.
    pub fn message_edges(&self) -> (edges: &Vec<MessageEdge>)
        ensures
            edges@ == self@.message_edges,
    {
        &self.message_edges
    }

    /// Connects the output called `src_port` of block `src_block` to the
    /// input called `dst_port` of block `dst_block` through `buffer`: the
    /// backend builds the writer for the output, the writer registers the
    /// reader for the input, and the connection is recorded with the store
    /// that the backend stocks. A connection that cannot be made leaves the
    /// registry as it is.
    pub fn connect_stream<B: BufferBuilder>(
        &mut self,
        src_block: usize,
        src_port: &str,
        dst_block: usize,
        dst_port: &str,
        buffer: B,
    ) -> (done: Result<(), ConnectError>)
        ensures
            match old(self)@.stream_verdict(src_block, src_port@, dst_block, dst_port@) {
                Ok((out_id, in_id)) => done is Ok && final(self)@ == old(self)@.with_stream(
                    src_block,
                    out_id,
                    dst_block,
                    in_id,
                    buffer.built(
                        old(self)@.blocks[src_block as int].sio.outputs[out_id].item_size,
                        out_id as usize,
                    ),
                    buffer.stocked(
                        old(self)@.blocks[src_block as int].sio.outputs[out_id].item_size,
                    ),
                ),
                Err(e) => done == Err::<(), ConnectError>(e) && final(self)@ == old(self)@,
            },
    {
        if src_block >= self.blocks.len() || dst_block >= self.blocks.len() {
            return Err(ConnectError::UnknownBlock);
        }
        let found_out = self.blocks[src_block].stream_io().output_name_to_id(src_port);
        let found_in = self.blocks[dst_block].stream_io().input_name_to_id(dst_port);
        let (out_id, in_id) = match (found_out, found_in) {
            (Some(out_id), Some(in_id)) => (out_id, in_id),
            _ => {
                return Err(ConnectError::UnknownPort);
            },
        };
        let output = self.blocks[src_block].stream_io().output_ref(out_id);
        let input = self.blocks[dst_block].stream_io().input_ref(in_id);
        let item_size = output.item_size();
        if item_size != input.item_size() {
            return Err(ConnectError::ItemSizeMismatch);
        }
        if item_size == 0 {
            return Err(ConnectError::InvalidItemSize);
        }
        if output.is_bound() || input.is_bound() {
            return Err(ConnectError::PortBound);
        }
        let mut writer = buffer.build(item_size, out_id);
        let reader = writer.add_reader(in_id);
        let store = buffer.store(item_size);
        match self.block_mut(src_block) {
            Some(block) => {
                block.bind_output(out_id, writer);
            },
            None => {},
        }
        match self.block_mut(dst_block) {
            Some(block) => {
                block.bind_input(in_id, reader);
            },
            None => {},
        }
        let edge = StreamEdge {
            src_block,
            src_port: out_id,
            dst_block,
            dst_port: in_id,
            store,
        };
        self.stream_edges.push(edge);
        assert(self@.stream_edges =~= old(self)@.stream_edges.push(edge@));
        Ok(())
    }

    /// Connects the message output called `src_port` of block `src_block` to
    /// the message input called `dst_port` of block `dst_block`. A connection
    /// that cannot be made leaves the registry as it is.
    pub fn connect_message(
        &mut self,
        src_block: usize,
        src_port: &str,
        dst_block: usize,
        dst_port: &str,
    ) -> (done: Result<(), ConnectError>)
        ensures
            match old(self)@.message_verdict(src_block, src_port@, dst_block, dst_port@) {
                Ok(edge) => done is Ok && final(self)@ == (TopologyView {
                    message_edges: old(self)@.message_edges.push(edge),
                    ..old(self)@
                }),
                Err(e) => done == Err::<(), ConnectError>(e) && final(self)@ == old(self)@,
            },
    {
        if src_block >= self.blocks.len() || dst_block >= self.blocks.len() {
            return Err(ConnectError::UnknownBlock);
        }
        let found_out = self.blocks[src_block].message_io().output_name_to_id(src_port);
        let found_in = self.blocks[dst_block].message_io().input_name_to_id(dst_port);
        match (found_out, found_in) {
            (Some(out_id), Some(in_id)) => {
                self.message_edges.push(
                    MessageEdge { src_block, src_port: out_id, dst_block, dst_port: in_id },
                );
                Ok(())
            },
            _ => Err(ConnectError::UnknownPort),
        }
    }

    /// The stream connection that output `port` of block `block` feeds: the
    /// first such connection, or none where the output feeds none.
    pub fn edge_from(&self, block: usize, port: usize) -> (edge: Option<usize>)
        ensures
            edge is Some ==> self@.is_edge_from(block, port, edge->0 as int),
            edge is None ==> forall|j: int|
                0 <= j < self@.stream_edges.len() ==> !((#[trigger] self@.stream_edges[j]).src_block
                    == block && self@.stream_edges[j].src_port == port),
    {
        let mut i: usize = 0;
        while i < self.stream_edges.len()
            invariant
                i <= self@.stream_edges.len(),
                forall|j: int|
                    0 <= j < i ==> !((#[trigger] self@.stream_edges[j]).src_block == block
                        && self@.stream_edges[j].src_port == port),
            decreases self@.stream_edges.len() - i,
        {
            let (from, out) = self.stream_edges[i].source();
            if from == block && out == port {
                return Some(i);
            }
            i = i + 1;
        }
        None
    }

    /// The stream connection that feeds input `port` of block `block`: the
    /// first such connection, or none where nothing feeds the input.
    pub fn edge_to(&self, block: usize, port: usize) -> (edge: Option<usize>)
        ensures
            edge is Some ==> self@.is_edge_to(block, port, edge->0 as int),
            edge is None ==> forall|j: int|
                0 <= j < self@.stream_edges.len() ==> !((#[trigger] self@.stream_edges[j]).dst_block
                    == block && self@.stream_edges[j].dst_port == port),
    {
        let mut i: usize = 0;
        while i < self.stream_edges.len()
            invariant
                i <= self@.stream_edges.len(),
                forall|j: int|
                    0 <= j < i ==> !((#[trigger] self@.stream_edges[j]).dst_block == block
                        && self@.stream_edges[j].dst_port == port),
            decreases self@.stream_edges.len() - i,
        {
            let (to, into) = self.stream_edges[i].destination();
            if to == block && into == port {
                return Some(i);
            }
            i = i + 1;
        }
        None
    }

    /// The two ends of stream connection `edge`: the block and output that
    /// feed it, and the block and input that it feeds.
    pub fn ends(&self, edge: usize) -> (ends: Option<((usize, usize), (usize, usize))>)
        ensures
            edge >= self@.stream_edges.len() ==> ends is None,
            edge < self@.stream_edges.len() ==> ends == Some(
                (
                    (
                        self@.stream_edges[edge as int].src_block,
                        self@.stream_edges[edge as int].src_port,
                    ),
                    (
                        self@.stream_edges[edge as int].dst_block,
                        self@.stream_edges[edge as int].dst_port,
                    ),
                ),
            ),
    {
        if edge < self.stream_edges.len() {
            Some((self.stream_edges[edge].source(), self.stream_edges[edge].destination()))
        } else {
            None
        }
    }

    /// The first block with a stream port that is not bound, if there is
    /// one. A registry without such a block is ready to run.
    pub fn first_unconnected(&self) -> (block: Option<usize>)
        ensures
            block is Some ==> block->0 < self@.blocks.len() && !self@.blocks[block->0 as int].sio.connected()
                && forall|j: int|
                0 <= j < block->0 ==> (#[trigger] self@.blocks[j]).sio.connected(),
            block is None ==> forall|j: int|
                0 <= j < self@.blocks.len() ==> (#[trigger] self@.blocks[j]).sio.connected(),
    {
        let mut i: usize = 0;
        while i < self.blocks.len()
            invariant
                i <= self@.blocks.len(),
                forall|j: int| 0 <= j < i ==> (#[trigger] self@.blocks[j]).sio.connected(),
            decreases self@.blocks.len() - i,
        {
            if !self.blocks[i].stream_io().is_connected() {
                return Some(i);
            }
            i = i + 1;
        }
        None
    }

    /// Whether a call to message input `port_id` of block `block_id` has a
    /// target.
    pub fn has_message_input(&self, block_id: usize, port_id: usize) -> (found: bool)
        ensures
            found == self@.has_message_input(block_id, port_id),
    {
        block_id < self.blocks.len() && port_id < self.blocks[block_id].message_io().inputs_len()
    }
}

} // verus!
