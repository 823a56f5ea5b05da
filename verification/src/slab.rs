//! A chunk pool in host memory: a fixed stock of equally sized chunks that
//! circulate between a host writer and a host reader. It serves where two
//! host blocks are connected and no contiguous ring is to be had.

use vstd::prelude::*;
use crate::buffer::{BufferBuilder, BufferWriter, Store, StoreState, WriterView};
use crate::chunk::{blank, BufferEmpty, EmptyView};
use crate::h2d::WriterH2D;
use crate::pools::{Pools, PoolsView};

verus! {

/// Bytes of one chunk of a pool made with `Slab::new`.
pub const SLAB_CHUNK_BYTES: usize = 8192;

/// Chunks of a pool made with `Slab::new`.
pub const SLAB_CHUNKS: usize = 4;

/// The backend that builds chunk pools in host memory.
#[derive(Debug, PartialEq, Eq, Hash)]
pub struct Slab {
    /// Capacity of each chunk, in bytes.
    pub chunk_bytes: usize,
    /// Number of chunks that circulate.
    pub chunks: usize,
}

/// A stock of `chunks` zeroed chunks of `bytes` bytes each, numbered from 0.
pub open spec fn stock(chunks: nat, bytes: nat) -> Seq<EmptyView> {
    Seq::new(chunks, |i: int| blank(i as u64, bytes))
}

/// The chunks of a stock all differ in identity.
pub proof fn lemma_stock_distinct(chunks: nat, bytes: nat)
    requires
        chunks <= u64::MAX,
    ensures
        crate::pools::empty_ids(stock(chunks, bytes)).no_duplicates(),
        crate::pools::empty_ids(stock(chunks, bytes)).len() == chunks,
        forall|i: int| 0 <= i < chunks ==> crate::pools::empty_ids(stock(chunks, bytes))[i] == i,
{
}

impl Slab {
    /// A pool of `SLAB_CHUNKS` chunks of `SLAB_CHUNK_BYTES` bytes.
    pub fn new() -> (slab: Slab)
        ensures
            slab == (Slab { chunk_bytes: SLAB_CHUNK_BYTES, chunks: SLAB_CHUNKS }),
    {
        Slab { chunk_bytes: SLAB_CHUNK_BYTES, chunks: SLAB_CHUNKS }
    }

    /// A pool of `chunks` chunks of `chunk_bytes` bytes.
    pub fn with_config(chunk_bytes: usize, chunks: usize) -> (slab: Slab)
        ensures
            slab == (Slab { chunk_bytes, chunks }),
    {
        Slab { chunk_bytes, chunks }
    }
}

impl Default for Slab {
    fn default() -> (slab: Slab)
        ensures
            slab == (Slab { chunk_bytes: SLAB_CHUNK_BYTES, chunks: SLAB_CHUNKS }),
    {
        Slab::new()
    }
}

impl BufferBuilder for Slab {
    open spec fn built(&self, item_size: usize, writer_output_id: usize) -> WriterView {
        WriterView::Slab(crate::h2d::WriterView::fresh(item_size as nat, writer_output_id))
    }

    open spec fn stocked(&self, item_size: usize) -> StoreState {
        StoreState::Pools(
            PoolsView {
                empty: stock(self.chunks as nat, self.chunk_bytes as nat),
                full: Seq::empty(),
            },
        )
    }

    fn build(&self, item_size: usize, writer_output_id: usize) -> BufferWriter {
        BufferWriter::Slab(WriterH2D::bare(item_size, writer_output_id))
    }

    fn store(&self, item_size: usize) -> Store {
        let mut pools = Pools::new();
        let mut i: usize = 0;
        assert(stock(0, self.chunk_bytes as nat) =~= Seq::<EmptyView>::empty());
        while i < self.chunks
            invariant
                i <= self.chunks,
                pools@ == (PoolsView {
                    empty: stock(i as nat, self.chunk_bytes as nat),
                    full: Seq::empty(),
                }),
            decreases self.chunks - i,
        {
            pools.push_empty(BufferEmpty::new(i as u64, self.chunk_bytes));
            assert(stock(i as nat, self.chunk_bytes as nat).push(
                blank(i as u64, self.chunk_bytes as nat),
            ) =~= stock((i + 1) as nat, self.chunk_bytes as nat));
            i = i + 1;
        }
        Store::Pools(pools)
    }
}

} // verus!
