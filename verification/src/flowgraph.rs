//! The graph as its author sees it: blocks are added, ports connected, and,
//! once the graph has run, the kernels looked up again by the identity of
//! their block.

use vstd::prelude::*;
use crate::block::{Block, Kernel};
use crate::buffer::{BufferBuilder, BufferWriter, Store, StoreState, WriterView};
use crate::circular::{ring_items, Circular, RingView, RING_ITEMS};
use crate::topology::{ConnectError, Topology, TopologyView};

verus! {

/// The backend of a connection for which the graph author names none: a ring
/// in host memory.
#[derive(Debug, PartialEq, Eq, Hash)]
pub struct DefaultBuffer;

impl DefaultBuffer {
    /// The backend.
    pub fn new() -> (backend: DefaultBuffer)
        ensures
            backend == DefaultBuffer,
    {
        DefaultBuffer
    }
}

impl BufferBuilder for DefaultBuffer {
    open spec fn built(&self, item_size: usize, writer_output_id: usize) -> WriterView {
        WriterView::Circular(
            crate::circular::WriterView::fresh(item_size as nat, writer_output_id),
        )
    }

    open spec fn stocked(&self, item_size: usize) -> StoreState {
        StoreState::Ring(RingView::fresh(item_size as nat, ring_items(RING_ITEMS, item_size)))
    }

    fn build(&self, item_size: usize, writer_output_id: usize) -> BufferWriter {
        Circular::new().build(item_size, writer_output_id)
    }

    fn store(&self, item_size: usize) -> Store {
        Circular::new().store(item_size)
    }
}

impl<K> TopologyView<K> {
    /// The kernel of block `id`, if the block exists and its kernel is of the
    /// flavour that may wait.
    pub open spec fn async_kernel(self, id: usize) -> Option<K> {
        if id < self.blocks.len() {
            match self.blocks[id as int].kernel {
                Kernel::Async(k) => Some(k),
                Kernel::Sync(_) => None,
            }
        } else {
            None
        }
    }

    /// The kernel of block `id`, if the block exists and its kernel is of the
    /// flavour that never waits.
    pub open spec fn sync_kernel(self, id: usize) -> Option<K> {
        if id < self.blocks.len() {
            match self.blocks[id as int].kernel {
                Kernel::Sync(k) => Some(k),
                Kernel::Async(_) => None,
            }
        } else {
            None
        }
    }
}

/// A graph of blocks. It holds the registry of blocks and connections, except
/// while the graph runs: then the registry is with whoever runs it.
pub struct Flowgraph<K> {
    topology: Option<Topology<K>>,
}

impl<K> View for Flowgraph<K> {
    type V = Option<TopologyView<K>>;

    closed spec fn view(&self) -> Option<TopologyView<K>> {
        match self.topology {
            Some(t) => Some(t@),
            None => None,
        }
    }
}

impl<K> Flowgraph<K> {
    /// A graph without blocks or connections.
    pub fn new() -> (fg: Flowgraph<K>)
        ensures
            fg@ == Some(TopologyView::<K>::vacant()),
    {
        Flowgraph { topology: Some(Topology::new()) }
    }

    /// Adds `block` to the graph. Its identity is the number of blocks added
    /// before it.
    pub fn add_block(&mut self, block: Block<K>) -> (id: usize)
        requires
            old(self)@ is Some,
        ensures
            id == old(self)@->0.blocks.len(),
            final(self)@ == Some(
                TopologyView { blocks: old(self)@->0.blocks.push(block@), ..old(self)@->0 },
            ),
    {
        match self.topology.as_mut() {
            Some(topology) => topology.add_block(block),
            None => 0,
        }
    }

    /// Connects the output called `src_port` of block `src_block` to the
    /// input called `dst_port` of block `dst_block` through a ring in host
    /// memory.
    pub fn connect_stream(
        &mut self,
        src_block: usize,
        src_port: &str,
        dst_block: usize,
        dst_port: &str,
    ) -> (done: Result<(), ConnectError>)
        requires
            old(self)@ is Some,
        ensures
            final(self)@ is Some,
            match old(self)@->0.stream_verdict(src_block, src_port@, dst_block, dst_port@) {
                Ok((out_id, in_id)) => done is Ok && final(self)@->0 == old(self)@->0.with_stream(
                    src_block,
                    out_id,
                    dst_block,
                    in_id,
                    DefaultBuffer.built(
                        old(self)@->0.blocks[src_block as int].sio.outputs[out_id].item_size,
                        out_id as usize,
                    ),
                    DefaultBuffer.stocked(
                        old(self)@->0.blocks[src_block as int].sio.outputs[out_id].item_size,
                    ),
                ),
                Err(e) => done == Err::<(), ConnectError>(e) && final(self)@ == old(self)@,
            },
    {
        self.connect_stream_with_type(src_block, src_port, dst_block, dst_port, DefaultBuffer::new())
    }

    /// Connects the output called `src_port` of block `src_block` to the
    /// input called `dst_port` of block `dst_block` through the backend
    /// `buffer`. The ports must exist, carry items of one size that is not 0,
    /// and be unbound; a connection that cannot be made leaves the graph as it
    /// is.
    pub fn connect_stream_with_type<B: BufferBuilder>(
        &mut self,
        src_block: usize,
        src_port: &str,
        dst_block: usize,
        dst_port: &str,
        buffer: B,
    ) -> (done: Result<(), ConnectError>)
        requires
            old(self)@ is Some,
        ensures
            final(self)@ is Some,
            match old(self)@->0.stream_verdict(src_block, src_port@, dst_block, dst_port@) {
                Ok((out_id, in_id)) => done is Ok && final(self)@->0 == old(self)@->0.with_stream(
                    src_block,
                    out_id,
                    dst_block,
                    in_id,
                    buffer.built(
                        old(self)@->0.blocks[src_block as int].sio.outputs[out_id].item_size,
                        out_id as usize,
                    ),
                    buffer.stocked(
                        old(self)@->0.blocks[src_block as int].sio.outputs[out_id].item_size,
                    ),
                ),
                Err(e) => done == Err::<(), ConnectError>(e) && final(self)@ == old(self)@,
            },
    {
        match self.topology.as_mut() {
            Some(topology) => topology.connect_stream(
                src_block,
                src_port,
                dst_block,
                dst_port,
                buffer,
            ),
            None => Err(ConnectError::UnknownBlock),
        }
    }

    /// Connects the message output called `src_port` of block `src_block` to
    /// the message input called `dst_port` of block `dst_block`. A connection
    /// that cannot be made leaves the graph as it is.
    pub fn connect_message(
        &mut self,
        src_block: usize,
        src_port: &str,
        dst_block: usize,
        dst_port: &str,
    ) -> (done: Result<(), ConnectError>)
        requires
            old(self)@ is Some,
        ensures
            final(self)@ is Some,
            match old(self)@->0.message_verdict(src_block, src_port@, dst_block, dst_port@) {
                Ok(edge) => done is Ok && final(self)@->0 == (TopologyView {
                    message_edges: old(self)@->0.message_edges.push(edge),
                    ..old(self)@->0
                }),
                Err(e) => done == Err::<(), ConnectError>(e) && final(self)@ == old(self)@,
            },
    {
        match self.topology.as_mut() {
            Some(topology) => topology.connect_message(src_block, src_port, dst_block, dst_port),
            None => Err(ConnectError::UnknownBlock),
        }
    }

    /// The kernel of block `id`, if the graph holds its registry, the block
    /// exists and its kernel is of the flavour that may wait.
    pub fn block_async(&self, id: usize) -> (kernel: Option<&K>)
        ensures
            self@ is None ==> kernel is None,
            self@ is Some ==> (kernel is Some <==> self@->0.async_kernel(id) is Some),
            self@ is Some && kernel is Some ==> *kernel->0 == self@->0.async_kernel(id)->0,
    {
        match &self.topology {
            Some(topology) => match topology.block_ref(id) {
                Some(block) => block.as_async(),
                None => None,
            },
            None => None,
        }
    }

    /// As `block_async`, on a graph that may be changed.
    pub fn block_async_mut(&mut self, id: usize) -> (kernel: Option<&K>)
        ensures
            final(self)@ == old(self)@,
            old(self)@ is None ==> kernel is None,
            old(self)@ is Some ==> (kernel is Some <==> old(self)@->0.async_kernel(id) is Some),
            old(self)@ is Some && kernel is Some ==> *kernel->0 == old(self)@->0.async_kernel(
                id,
            )->0,
    {
        match &self.topology {
            Some(topology) => match topology.block_ref(id) {
                Some(block) => block.as_async(),
                None => None,
            },
            None => None,
        }
    }

    /// The kernel of block `id`, if the graph holds its registry, the block
    /// exists and its kernel is of the flavour that never waits.
    pub fn block_sync(&self, id: usize) -> (kernel: Option<&K>)
        ensures
            self@ is None ==> kernel is None,
            self@ is Some ==> (kernel is Some <==> self@->0.sync_kernel(id) is Some),
            self@ is Some && kernel is Some ==> *kernel->0 == self@->0.sync_kernel(id)->0,
    {
        match &self.topology {
            Some(topology) => match topology.block_ref(id) {
                Some(block) => block.as_sync(),
                None => None,
            },
            None => None,
        }
    }

    /// As `block_sync`, on a graph that may be changed.
    pub fn block_sync_mut(&mut self, id: usize) -> (kernel: Option<&K>)
        ensures
            final(self)@ == old(self)@,
            old(self)@ is None ==> kernel is None,
            old(self)@ is Some ==> (kernel is Some <==> old(self)@->0.sync_kernel(id) is Some),
            old(self)@ is Some && kernel is Some ==> *kernel->0 == old(self)@->0.sync_kernel(
                id,
            )->0,
    {
        match &self.topology {
            Some(topology) => match topology.block_ref(id) {
                Some(block) => block.as_sync(),
                None => None,
            },
            None => None,
        }
    }

    /// Hands the registry out, to run the graph. Until it is given back the
    /// graph answers no lookup.
    pub fn take_topology(&mut self) -> (topology: Option<Topology<K>>)
        ensures
            final(self)@ is None,
            old(self)@ is Some ==> topology is Some && topology->0@ == old(self)@->0,
            old(self)@ is None ==> topology is None,
    {
        let mut taken: Option<Topology<K>> = None;
        core::mem::swap(&mut self.topology, &mut taken);
        taken
    }

    /// Takes the registry back after a run.
    pub fn restore_topology(&mut self, topology: Topology<K>)
        ensures
            final(self)@ == Some(topology@),
    {
        self.topology = Some(topology);
    }
}

impl<K> Default for Flowgraph<K> {
    fn default() -> (fg: Flowgraph<K>)
        ensures
            fg@ == Some(TopologyView::<K>::vacant()),
    {
        Flowgraph::new()
    }
}

} // verus!
