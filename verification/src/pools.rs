//! The two chunk pools of one connection: empty chunks on their way to the
//! producer, full chunks on their way to the consumer. The two ends of a
//! connection share exactly this state and touch it one operation at a time.

use vstd::prelude::*;
use crate::chunk::{BufferEmpty, BufferFull, EmptyView, FullView};

verus! {

/// The contents of the two pools, oldest chunk first.
pub struct PoolsView {
    pub empty: Seq<EmptyView>,
    pub full: Seq<FullView>,
}

/// The views of a sequence of empty chunks.
pub open spec fn empty_views(chunks: Seq<BufferEmpty>) -> Seq<EmptyView> {
    chunks.map_values(|c: BufferEmpty| c@)
}

/// The views of a sequence of full chunks.
pub open spec fn full_views(chunks: Seq<BufferFull>) -> Seq<FullView> {
    chunks.map_values(|c: BufferFull| c@)
}

/// The sum of the payload counts of a sequence of full chunks.
pub open spec fn used_total(chunks: Seq<FullView>) -> nat
    decreases chunks.len(),
{
    if chunks.len() == 0 {
        0
    } else {
        used_total(chunks.drop_last()) + chunks.last().used
    }
}

/// The identities of a sequence of empty chunks.
pub open spec fn empty_ids(chunks: Seq<EmptyView>) -> Seq<u64> {
    chunks.map_values(|c: EmptyView| c.id)
}

/// The identities of a sequence of full chunks.
pub open spec fn full_ids(chunks: Seq<FullView>) -> Seq<u64> {
    chunks.map_values(|c: FullView| c.id)
}

impl PoolsView {
    /// Every full chunk keeps its payload within its capacity.
    pub open spec fn wf(self) -> bool {
        forall|i: int| 0 <= i < self.full.len() ==> (#[trigger] self.full[i]).wf()
    }

    /// Both pools without chunks.
    pub open spec fn vacant() -> PoolsView {
        PoolsView { empty: Seq::empty(), full: Seq::empty() }
    }

    /// The pools with `chunk` added as the newest empty chunk.
    pub open spec fn with_empty(self, chunk: EmptyView) -> PoolsView {
        PoolsView { empty: self.empty.push(chunk), ..self }
    }

    /// The pools with `chunk` added as the newest full chunk.
    pub open spec fn with_full(self, chunk: FullView) -> PoolsView {
        PoolsView { full: self.full.push(chunk), ..self }
    }

    /// The pools with all empty chunks taken.
    pub open spec fn without_empty(self) -> PoolsView {
        PoolsView { empty: Seq::empty(), ..self }
    }

    /// The pools with all full chunks taken.
    pub open spec fn without_full(self) -> PoolsView {
        PoolsView { full: Seq::empty(), ..self }
    }
}

/// The shared pools of one connection.
#[derive(Debug)]
pub struct Pools {
    empty: Vec<BufferEmpty>,
    full: Vec<BufferFull>,
}

impl View for Pools {
    type V = PoolsView;

    closed spec fn view(&self) -> PoolsView {
        PoolsView { empty: empty_views(self.empty@), full: full_views(self.full@) }
    }
}

impl Pools {
    /// Two pools without chunks.
    pub fn new() -> (pools: Pools)
        ensures
            pools@ == PoolsView::vacant(),
    {
        let pools = Pools { empty: Vec::new(), full: Vec::new() };
        assert(pools@.empty =~= Seq::empty());
        assert(pools@.full =~= Seq::empty());
        pools
    }

    /// Number of empty chunks waiting for the producer.
    pub fn empty_len(&self) -> (n: usize)
        ensures
            n == self@.empty.len(),
    {
        self.empty.len()
    }

    /// Number of full chunks waiting for the consumer.
    pub fn full_len(&self) -> (n: usize)
        ensures
            n == self@.full.len(),
    {
        self.full.len()
    }

    /// Adds an empty chunk as the newest of its pool.
    pub fn push_empty(&mut self, chunk: BufferEmpty)
        ensures
            final(self)@ == old(self)@.with_empty(chunk@),
    {
        self.empty.push(chunk);
        assert(self@.empty =~= old(self)@.empty.push(chunk@));
    }

    /// Takes the newest empty chunk, if there is one.
    pub fn pop_empty(&mut self) -> (chunk: Option<BufferEmpty>)
        ensures
            old(self)@.empty.len() == 0 ==> chunk is None && final(self)@ == old(self)@,
            old(self)@.empty.len() > 0 ==> chunk is Some && chunk->0@ == old(self)@.empty.last()
                && final(self)@ == (PoolsView {
                empty: old(self)@.empty.drop_last(),
                ..old(self)@
            }),
    {
        let chunk = self.empty.pop();
        proof {
            if old(self)@.empty.len() > 0 {
                assert(self@.empty =~= old(self)@.empty.drop_last());
            } else {
                assert(self@.empty =~= old(self)@.empty);
            }
        }
        chunk
    }

    /// Takes every empty chunk, oldest first, and leaves the pool without any.
    pub fn take_empty(&mut self) -> (chunks: Vec<BufferEmpty>)
        ensures
            empty_views(chunks@) == old(self)@.empty,
            final(self)@ == old(self)@.without_empty(),
    {
        let mut chunks: Vec<BufferEmpty> = Vec::new();
        core::mem::swap(&mut self.empty, &mut chunks);
        assert(self@.empty =~= Seq::empty());
        chunks
    }

    /// Adds a full chunk as the newest of its pool.
    pub fn push_full(&mut self, chunk: BufferFull)
        ensures
            final(self)@ == old(self)@.with_full(chunk@),
            chunk@.wf(),
    {
        let _ = chunk.used_bytes();
        self.full.push(chunk);
        assert(self@.full =~= old(self)@.full.push(chunk@));
    }

    /// Takes the oldest full chunk, if there is one.
    pub fn pop_full(&mut self) -> (chunk: Option<BufferFull>)
        ensures
            old(self)@.full.len() == 0 ==> chunk is None && final(self)@ == old(self)@,
            old(self)@.full.len() > 0 ==> chunk is Some && chunk->0@ == old(self)@.full.first()
                && final(self)@ == (PoolsView {
                full: old(self)@.full.drop_first(),
                ..old(self)@
            }),
    {
        if self.full.len() == 0 {
            None
        } else {
            let chunk = self.full.remove(0);
            assert(self@.full =~= old(self)@.full.drop_first());
            assert(chunk@ == old(self)@.full[0]);
            Some(chunk)
        }
    }

    /// Takes every full chunk, oldest first, and leaves the pool without any.
    pub fn take_full(&mut self) -> (chunks: Vec<BufferFull>)
        ensures
            full_views(chunks@) == old(self)@.full,
            final(self)@ == old(self)@.without_full(),
    {
        let mut chunks: Vec<BufferFull> = Vec::new();
        core::mem::swap(&mut self.full, &mut chunks);
        assert(self@.full =~= Seq::empty());
        chunks
    }
}

} // verus!
