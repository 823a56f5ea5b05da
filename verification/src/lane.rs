//! The work of an accelerator stage between its two connections: full chunks
//! taken from the input wait in line, and one at a time is in flight on the
//! device. The stage decides; running the device is left to the caller.

use vstd::prelude::*;
use crate::block::WorkIo;
use crate::chunk::{blank, BufferFull, EmptyView, FullView};
use crate::dispatch::{dispatch_for, groups_needed, ITEM_SIZE, WORK_GROUP_SIZE};
use crate::h2d::ReaderH2D;
use crate::pools::{full_views, Pools};

verus! {

/// Why a stage cannot go on.
#[derive(Debug, Clone, Copy, PartialEq, Eq)]
pub enum StageError {
    /// A chunk of the asked size cannot be allocated.
    Allocation,
    /// The chunk needs more work groups than one dispatch can take.
    DispatchTooLarge,
    /// The device failed to run the chunk or to hand the result back.
    DeviceFailed,
    /// The result that came back is not as long as the payload sent.
    ResultLength,
    /// Something completed although nothing was in flight.
    NothingInFlight,
}

/// The identity after `id`; after the largest comes 0.
pub open spec fn following(id: u64) -> u64 {
    if id == u64::MAX {
        0
    } else {
        (id + 1) as u64
    }
}

/// The identity `steps` after `id`, counting around the largest.
pub open spec fn nth_after(id: u64, steps: nat) -> u64 {
    ((id + steps) % 0x1_0000_0000_0000_0000) as u64
}

/// `count` zeroed chunks of `bytes` bytes each, with the identities from
/// `first` on.
pub open spec fn seeded(first: u64, count: nat, bytes: nat) -> Seq<EmptyView> {
    Seq::new(count, |i: int| blank(nth_after(first, i as nat), bytes))
}

/// Seeded chunks all differ in identity, as long as there are no more of them
/// than there are identities.
pub proof fn lemma_seeded_distinct(first: u64, count: nat, bytes: nat)
    requires
        count <= 0x1_0000_0000_0000_0000,
    ensures
        crate::pools::empty_ids(seeded(first, count, bytes)).no_duplicates(),
{
    let ids = crate::pools::empty_ids(seeded(first, count, bytes));
    assert forall|i: int, j: int| 0 <= i < ids.len() && 0 <= j < ids.len() && i != j implies ids[i]
        != ids[j] by {
        assert(ids[i] == nth_after(first, i as nat));
        assert(ids[j] == nth_after(first, j as nat));
    }
}

/// The identity after `id`.
pub fn next_identity(id: u64) -> (next: u64)
    ensures
        next == following(id),
        next == nth_after(id, 1),
        forall|steps: nat| nth_after(next, steps) == nth_after(id, steps + 1),
{
    if id == u64::MAX {
        0
    } else {
        id + 1
    }
}

/// What the line of a stage is: the chunks that wait, oldest first, and the
/// chunk on the device.
pub struct LaneView {
    pub backlog: Seq<FullView>,
    pub in_flight: Option<FullView>,
}

/// The number of work groups that a chunk with `used` bytes of payload needs.
pub open spec fn groups_for(used: nat) -> nat {
    groups_needed(used / (ITEM_SIZE as nat), WORK_GROUP_SIZE as nat)
}

impl LaneView {
    /// Nothing waits and nothing is in flight.
    pub open spec fn vacant() -> LaneView {
        LaneView { backlog: Seq::empty(), in_flight: None }
    }

    /// Whether the line holds no chunk at all.
    pub open spec fn idle(self) -> bool {
        self.backlog.len() == 0 && self.in_flight is None
    }

    /// Whether a launch is due: nothing is in flight and a chunk waits.
    pub open spec fn ready(self) -> bool {
        self.in_flight is None && self.backlog.len() > 0
    }

    /// The line after the oldest waiting chunk went on the device.
    pub open spec fn launched(self) -> LaneView
        recommends
            self.ready(),
    {
        LaneView { backlog: self.backlog.drop_first(), in_flight: Some(self.backlog.first()) }
    }

    /// The line after the chunk on the device came off it.
    pub open spec fn landed(self) -> LaneView {
        LaneView { in_flight: None, ..self }
    }

    /// The line after `chunks` lined up behind those that wait.
    pub open spec fn joined(self, chunks: Seq<FullView>) -> LaneView {
        LaneView { backlog: self.backlog + chunks, ..self }
    }

    /// Whether the oldest waiting chunk can go on the device: nothing is
    /// there, and one dispatch can take the work groups it needs.
    pub open spec fn can_launch(self) -> bool {
        self.ready() && groups_for(self.backlog.first().used) <= u32::MAX
    }
}

/// The payload counts of `chunks`, added up.
pub open spec fn payload_total(chunks: Seq<FullView>) -> nat {
    crate::pools::used_total(chunks)
}

/// The line of a stage.
#[derive(Debug)]
pub struct Lane {
    backlog: Vec<BufferFull>,
    in_flight: Option<BufferFull>,
}

impl View for Lane {
    type V = LaneView;

    closed spec fn view(&self) -> LaneView {
        LaneView {
            backlog: full_views(self.backlog@),
            in_flight: match self.in_flight {
                Some(chunk) => Some(chunk@),
                None => None,
            },
        }
    }
}

impl Lane {
    /// A line without chunks.
    pub fn new() -> (lane: Lane)
        ensures
            lane@ == LaneView::vacant(),
    {
        let lane = Lane { backlog: Vec::new(), in_flight: None };
        assert(lane@.backlog =~= Seq::empty());
        lane
    }

    /// Number of chunks that wait.
    pub fn waiting(&self) -> (n: usize)
        ensures
            n == self@.backlog.len(),
    {
        self.backlog.len()
    }

    /// Whether a chunk is on the device.
    pub fn busy(&self) -> (busy: bool)
        ensures
            busy == self@.in_flight is Some,
    {
        self.in_flight.is_some()
    }

    /// Takes all full chunks from the input and lines them up behind those
    /// that wait already, in the order in which the writer passed them on.
    pub fn collect(&mut self, input: &mut ReaderH2D, pools: &mut Pools)
        ensures
            final(input)@ == old(input)@,
            final(pools)@ == old(pools)@.without_full(),
            final(self)@ == old(self)@.joined(old(pools)@.full),
    {
        let mut taken = input.buffers(pools);
        let ghost before = self.backlog@;
        let ghost arrived = taken@;
        self.backlog.append(&mut taken);
        assert(full_views(before + arrived) =~= full_views(before) + full_views(arrived));
    }

    /// Puts the oldest waiting chunk on the device, unless one is there or
    /// none waits, and says how many work groups to dispatch for it: enough
    /// to cover every whole item of its payload. A chunk that needs more
    /// groups than a dispatch can take stays in line and is an error.
    pub fn launch(&mut self) -> (groups: Result<Option<u32>, StageError>)
        ensures
            !old(self)@.ready() ==> groups == Ok::<Option<u32>, StageError>(None) && final(self)@
                == old(self)@,
            old(self)@.ready() && groups_for(old(self)@.backlog.first().used) <= u32::MAX
                ==> groups == Ok::<Option<u32>, StageError>(
                Some(groups_for(old(self)@.backlog.first().used) as u32),
            ) && final(self)@ == old(self)@.launched(),
            old(self)@.ready() && groups_for(old(self)@.backlog.first().used) > u32::MAX
                ==> groups == Err::<Option<u32>, StageError>(StageError::DispatchTooLarge)
                && final(self)@ == old(self)@,
    {
        if self.in_flight.is_some() || self.backlog.len() == 0 {
            return Ok(None);
        }
        let count = dispatch_for(self.backlog[0].used_bytes());
        assert(self.backlog@[0]@ == self@.backlog.first());
        match count {
            Some(groups) => {
                let chunk = self.backlog.remove(0);
                self.in_flight = Some(chunk);
                assert(self@.backlog =~= old(self)@.backlog.drop_first());
                Ok(Some(groups))
            },
            None => Err(StageError::DispatchTooLarge),
        }
    }

    /// The payload count of the chunk on the device.
    pub fn in_flight_used(&self) -> (used: Option<usize>)
        ensures
            used is Some <==> self@.in_flight is Some,
            used is Some ==> used->0 == self@.in_flight->0.used && self@.in_flight->0.wf(),
    {
        match &self.in_flight {
            Some(chunk) => Some(chunk.used_bytes()),
            None => None,
        }
    }

    /// The payload of the chunk on the device.
    pub fn payload(&self) -> (out: &[u8])
        requires
            self@.in_flight is Some,
        ensures
            out@ == self@.in_flight->0.payload(),
            self@.in_flight->0.wf(),
    {
        match &self.in_flight {
            Some(chunk) => chunk.payload(),
            None => vstd::pervasive::unreached(),
        }
    }

    /// Takes the chunk off the device.
    pub fn land(&mut self) -> (chunk: Option<BufferFull>)
        ensures
            final(self)@ == old(self)@.landed(),
            old(self)@.in_flight is Some ==> chunk is Some && chunk->0@ == old(self)@.in_flight->0,
            old(self)@.in_flight is None ==> chunk is None,
    {
        let mut landed: Option<BufferFull> = None;
        core::mem::swap(&mut self.in_flight, &mut landed);
        landed
    }

    /// Ends the invocation: the block counts as finished once the stream is
    /// over for its input, which is then marked finished with no full chunk
    /// waiting, and no payload is left in line or on the device. A block that
    /// counted as finished before still does.
    pub fn conclude(&self, io: &mut WorkIo, input: &ReaderH2D, pools: &Pools)
        ensures
            final(io).finished == (old(io).finished || (input@.observes_end(pools@)
                && self@.idle())),
    {
        if input.finished(pools) && self.backlog.len() == 0 && self.in_flight.is_none() {
            io.finished = true;
        }
    }
}

} // verus!
