//! The accelerator stage that works in place: a chunk that arrives full is
//! run on the device where it lies and passed on with the same payload count;
//! chunks that come back empty from the output return to the input.

use vstd::prelude::*;
use crate::block::{
    Block, InputView, Kernel, MessageIoBuilder, MessageIoView, OutputView, StreamIoBuilder,
    StreamIoView, WorkIo,
};
use crate::chunk::{blank, overwrite, BufferEmpty, FullView};
use crate::d2h::WriterD2H;
use crate::dispatch::ITEM_SIZE;
use crate::h2d::ReaderH2D;
use crate::lane::{
    groups_for, next_identity, nth_after, payload_total, seeded, Lane, LaneView, StageError,
};
use crate::message::AsyncMessage;
use crate::pools::{Pools, PoolsView};

verus! {

/// Chunks that the stage puts into circulation when it starts.
pub const SEED_CHUNKS: usize = 4;

/// Capacity, in bytes, of the chunks of a stage built without naming one.
pub const DEFAULT_CAPACITY: u64 = 8192;

/// What the stage is.
pub struct VulkanView {
    /// Capacity of the chunks that the stage seeds, in bytes.
    pub capacity: u64,
    /// The identity that the next seeded chunk gets.
    pub next_id: u64,
    pub lane: LaneView,
}

/// The stage that works in place.
#[derive(Debug)]
pub struct Vulkan {
    capacity: u64,
    next_id: u64,
    lane: Lane,
}

impl View for Vulkan {
    type V = VulkanView;

    closed spec fn view(&self) -> VulkanView {
        VulkanView { capacity: self.capacity, next_id: self.next_id, lane: self.lane@ }
    }
}

/// The ports of an accelerator stage: one input `in` and one output `out`,
/// both for items of `ITEM_SIZE` bytes, both unbound; no message ports.
pub open spec fn stage_ports() -> (StreamIoView, MessageIoView) {
    (
        StreamIoView {
            inputs: seq![InputView { name: "in"@, item_size: ITEM_SIZE, reader: None }],
            outputs: seq![OutputView { name: "out"@, item_size: ITEM_SIZE, writer: None }],
        },
        MessageIoView { inputs: Seq::empty(), outputs: Seq::empty() },
    )
}

/// The chunk that comes off the device: the one that went on, with its payload
/// replaced by `result`.
pub open spec fn processed(chunk: FullView, result: Seq<u8>) -> FullView {
    FullView { bytes: overwrite(chunk.bytes, 0, result), ..chunk }
}

impl Vulkan {
    /// A block called `Vulkan` around a stage whose chunks have `capacity`
    /// bytes.
    pub fn new(capacity: u64) -> (block: Block<Vulkan>)
        ensures
            block@.name == "Vulkan"@,
            (block@.sio, block@.mio) == stage_ports(),
            block@.kernel matches Kernel::Async(stage) && stage@ == (VulkanView {
                capacity,
                next_id: 0,
                lane: LaneView::vacant(),
            }),
    {
        let sio = StreamIoBuilder::new().add_input("in", ITEM_SIZE).add_output(
            "out",
            ITEM_SIZE,
        ).build();
        let mio = MessageIoBuilder::new().build();
        assert(sio@.inputs =~= stage_ports().0.inputs);
        assert(sio@.outputs =~= stage_ports().0.outputs);
        Block::new_async("Vulkan", sio, mio, Vulkan { capacity, next_id: 0, lane: Lane::new() })
    }

    /// The capacity of the chunks that the stage seeds, in bytes.
    pub fn capacity(&self) -> (capacity: u64)
        ensures
            capacity == self@.capacity,
    {
        self.capacity
    }

    /// Starts the stage: `SEED_CHUNKS` zeroed chunks of the stage's capacity,
    /// with the next identities of the stage, go to the empty pool of the
    /// input, and the `Notify` for the writer comes back. Where a chunk of
    /// that capacity cannot be addressed, nothing is seeded.
    pub fn init(&mut self, input: &mut ReaderH2D, pools: &mut Pools) -> (started: Result<
        AsyncMessage,
        StageError,
    >)
        ensures
            final(input)@ == old(input)@,
            old(self)@.capacity <= usize::MAX ==> started == Ok::<AsyncMessage, StageError>(
                AsyncMessage::Notify,
            ) && final(self)@ == (VulkanView {
                next_id: nth_after(old(self)@.next_id, SEED_CHUNKS as nat),
                ..old(self)@
            }) && final(pools)@ == (PoolsView {
                empty: old(pools)@.empty + seeded(
                    old(self)@.next_id,
                    SEED_CHUNKS as nat,
                    old(self)@.capacity as nat,
                ),
                ..old(pools)@
            }),
            old(self)@.capacity > usize::MAX ==> started == Err::<AsyncMessage, StageError>(
                StageError::Allocation,
            ) && final(self)@ == old(self)@ && final(pools)@ == old(pools)@,
    {
        if self.capacity > usize::MAX as u64 {
            return Err(StageError::Allocation);
        }
        let bytes: usize = self.capacity as usize;
        let ghost first = self.next_id;
        let mut i: usize = 0;
        assert(old(pools)@.empty + seeded(first, 0, bytes as nat) =~= old(pools)@.empty);
        while i < SEED_CHUNKS
            invariant
                i <= SEED_CHUNKS,
                input@ == old(input)@,
                first == old(self)@.next_id,
                self@ == (VulkanView { next_id: nth_after(first, i as nat), ..old(self)@ }),
                pools@ == (PoolsView {
                    empty: old(pools)@.empty + seeded(first, i as nat, bytes as nat),
                    ..old(pools)@
                }),
            decreases SEED_CHUNKS - i,
        {
            let id = self.next_id;
            let _ = input.submit(pools, BufferEmpty::new(id, bytes));
            self.next_id = next_identity(id);
            assert((old(pools)@.empty + seeded(first, i as nat, bytes as nat)).push(
                blank(nth_after(first, i as nat), bytes as nat),
            ) =~= old(pools)@.empty + seeded(first, (i + 1) as nat, bytes as nat));
            i = i + 1;
        }
        Ok(AsyncMessage::Notify)
    }

    /// Returns to the input every chunk that came back empty from the output,
    /// oldest first. With at least one returned, the `Notify` for the writer
    /// of the input comes back.
    pub fn recycle(
        &mut self,
        output: &mut WriterD2H,
        out_pools: &mut Pools,
        input: &mut ReaderH2D,
        in_pools: &mut Pools,
    ) -> (notice: Option<AsyncMessage>)
        ensures
            final(self)@ == old(self)@,
            final(output)@ == old(output)@,
            final(input)@ == old(input)@,
            final(out_pools)@ == old(out_pools)@.without_empty(),
            final(in_pools)@ == (PoolsView {
                empty: old(in_pools)@.empty + old(out_pools)@.empty,
                ..old(in_pools)@
            }),
            notice == (if old(out_pools)@.empty.len() > 0 {
                Some(AsyncMessage::Notify)
            } else {
                None
            }),
    {
        let mut returned = output.buffers(out_pools);
        let ghost all = crate::pools::empty_views(returned@);
        let any = returned.len() > 0;
        assert(old(in_pools)@.empty + all.subrange(0, 0) =~= old(in_pools)@.empty);
        while returned.len() > 0
            invariant
                input@ == old(input)@,
                returned@.len() <= all.len(),
                crate::pools::empty_views(returned@) == all.subrange(
                    all.len() - returned@.len(),
                    all.len() as int,
                ),
                in_pools@ == (PoolsView {
                    empty: old(in_pools)@.empty + all.subrange(0, all.len() - returned@.len()),
                    ..old(in_pools)@
                }),
            decreases returned@.len(),
        {
            let ghost done = all.len() - returned@.len();
            let ghost rest = crate::pools::empty_views(returned@);
            let chunk = returned.remove(0);
            assert(chunk@ == rest[0]);
            let _ = input.submit(in_pools, chunk);
            assert(crate::pools::empty_views(returned@) =~= rest.subrange(1, rest.len() as int));
            assert(rest.subrange(1, rest.len() as int) =~= all.subrange(
                done + 1,
                all.len() as int,
            ));
            assert((old(in_pools)@.empty + all.subrange(0, done)).push(all[done])
                =~= old(in_pools)@.empty + all.subrange(0, done + 1));
        }
        assert(all.subrange(0, all.len() as int) =~= all);
        if any {
            Some(AsyncMessage::Notify)
        } else {
            None
        }
    }

    /// Takes all full chunks from the input and lines them up.
    pub fn collect(&mut self, input: &mut ReaderH2D, pools: &mut Pools)
        ensures
            final(input)@ == old(input)@,
            final(pools)@ == old(pools)@.without_full(),
            final(self)@ == old(self)@.collected(old(pools)@),
    {
        self.lane.collect(input, pools);
    }

    /// Puts the oldest waiting chunk on the device, unless one is there or
    /// none waits, and says how many work groups to dispatch for it.
    pub fn launch(&mut self) -> (groups: Result<Option<u32>, StageError>)
        ensures
            !old(self)@.lane.ready() ==> groups == Ok::<Option<u32>, StageError>(None)
                && final(self)@ == old(self)@,
            old(self)@.lane.can_launch() ==> groups == Ok::<Option<u32>, StageError>(
                Some(groups_for(old(self)@.lane.backlog.first().used) as u32),
            ) && final(self)@ == old(self)@.launched(),
            old(self)@.lane.ready() && !old(self)@.lane.can_launch() ==> groups == Err::<
                Option<u32>,
                StageError,
            >(StageError::DispatchTooLarge) && final(self)@ == old(self)@,
    {
        self.lane.launch()
    }

    /// The payload of the chunk on the device.
    pub fn payload(&self) -> (out: &[u8])
        requires
            self@.lane.in_flight is Some,
        ensures
            out@ == self@.lane.in_flight->0.payload(),
    {
        self.lane.payload()
    }

    /// Takes the chunk off the device. With a result as long as the payload,
    /// the chunk goes to the full pool of the output with the result as its
    /// payload, its payload count as it was, and the `Notify` for the reader
    /// of the output comes back. Without a result the device has failed; the
    /// chunk then stays where it is, as it does when the result has another
    /// length or nothing was in flight.
    pub fn complete(
        &mut self,
        result: Option<&[u8]>,
        output: &mut WriterD2H,
        out_pools: &mut Pools,
    ) -> (done: Result<AsyncMessage, StageError>)
        ensures
            final(output)@ == old(output)@,
            done == vulkan_verdict(old(self)@.lane, result_bytes(result)),
            done is Ok ==> (final(self)@, final(out_pools)@) == old(self)@.completed(
                old(out_pools)@,
                result->0@,
            ),
            done is Err ==> final(self)@ == old(self)@ && final(out_pools)@ == old(out_pools)@,
    {
        let used = match self.lane.in_flight_used() {
            Some(used) => used,
            None => {
                return Err(StageError::NothingInFlight);
            },
        };
        let data = match result {
            Some(data) => data,
            None => {
                return Err(StageError::DeviceFailed);
            },
        };
        if data.len() != used {
            return Err(StageError::ResultLength);
        }
        let ghost before = self@.lane.in_flight->0;
        match self.lane.land() {
            Some(chunk) => {
                let mut empty = chunk.into_empty();
                empty.write_at(0, data);
                let notice = output.submit(out_pools, empty.into_full(used));
                Ok(notice)
            },
            None => Err(StageError::NothingInFlight),
        }
    }

    /// Ends the invocation: the block counts as finished once the stream is
    /// over for the input and no payload is left before the output.
    pub fn conclude(&self, io: &mut WorkIo, input: &ReaderH2D, pools: &Pools)
        ensures
            final(io).finished == (old(io).finished || (input@.observes_end(pools@)
                && self@.lane.idle())),
    {
        self.lane.conclude(io, input, pools);
    }
}

/// The bytes of a result, if there is one.
pub open spec fn result_bytes(result: Option<&[u8]>) -> Option<Seq<u8>> {
    match result {
        Some(bytes) => Some(bytes@),
        None => None,
    }
}

/// What completing says: an error when nothing is in flight, when the device
/// gave no result, or when the result is not as long as the payload; else the
/// `Notify` for the reader of the output.
pub open spec fn vulkan_verdict(lane: LaneView, result: Option<Seq<u8>>) -> Result<
    AsyncMessage,
    StageError,
> {
    if lane.in_flight is None {
        Err(StageError::NothingInFlight)
    } else if result is None {
        Err(StageError::DeviceFailed)
    } else if result->0.len() != lane.in_flight->0.used {
        Err(StageError::ResultLength)
    } else {
        Ok(AsyncMessage::Notify)
    }
}

impl VulkanView {
    /// The stage after it took the full chunks of its input in line.
    pub open spec fn collected(self, input: PoolsView) -> VulkanView {
        VulkanView { lane: self.lane.joined(input.full), ..self }
    }

    /// The stage after the oldest waiting chunk went on the device.
    pub open spec fn launched(self) -> VulkanView {
        VulkanView { lane: self.lane.launched(), ..self }
    }

    /// The stage and the pools of its output after the chunk on the device
    /// came off it with `result`: the chunk is passed on, last of the full
    /// pool, with `result` as its payload and its payload count as it was.
    pub open spec fn completed(self, output: PoolsView, result: Seq<u8>) -> (
        VulkanView,
        PoolsView,
    )
        recommends
            self.lane.in_flight is Some,
    {
        (
            VulkanView { lane: self.lane.landed(), ..self },
            output.with_full(processed(self.lane.in_flight->0, result)),
        )
    }

    /// The stage and the pools of its output after one chunk for each of
    /// `results` went on the device, oldest first, and came off it with that
    /// result.
    pub open spec fn run(self, output: PoolsView, results: Seq<Seq<u8>>) -> (VulkanView, PoolsView)
        decreases results.len(),
    {
        if results.len() == 0 {
            (self, output)
        } else {
            let before = self.run(output, results.drop_last());
            before.0.launched().completed(before.1, results.last())
        }
    }

    /// Whether every step of such a run is one that `launch` and `complete`
    /// carry out: each time a chunk can go on the device, and its result is
    /// accepted.
    pub open spec fn admits(self, output: PoolsView, results: Seq<Seq<u8>>) -> bool
        decreases results.len(),
    {
        results.len() > 0 ==> {
            let before = self.run(output, results.drop_last());
            &&& self.admits(output, results.drop_last())
            &&& before.0.lane.can_launch()
            &&& vulkan_verdict(before.0.launched().lane, Some(results.last())) is Ok
        }
    }
}

/// A whole invocation passes every chunk on. Let nothing be on the device,
/// let the first `results.len()` waiting chunks each need no more work groups
/// than a dispatch takes, and let each result be as long as the payload of its
/// chunk. Then every launch and every completion of the run succeeds, and at
/// its end exactly those chunks stand behind what the full pool of the output
/// held, in the order in which they waited, each with its identity and its
/// payload count and with its result as payload; the chunks behind them still
/// wait, nothing is on the device, and the empty pool of the output is
/// untouched. So the payload passed on is the payload taken, byte count for
/// byte count.
pub proof fn lemma_invocation_passes_all(s: VulkanView, output: PoolsView, results: Seq<Seq<u8>>)
    requires
        s.lane.in_flight is None,
        results.len() <= s.lane.backlog.len(),
        forall|j: int|
            0 <= j < results.len() ==> groups_for((#[trigger] s.lane.backlog[j]).used) <= u32::MAX,
        forall|j: int|
            0 <= j < results.len() ==> (#[trigger] results[j]).len() == s.lane.backlog[j].used,
    ensures
        s.admits(output, results),
        s.run(output, results).0 == (VulkanView {
            lane: LaneView {
                backlog: s.lane.backlog.subrange(
                    results.len() as int,
                    s.lane.backlog.len() as int,
                ),
                in_flight: None,
            },
            ..s
        }),
        s.run(output, results).1 == (PoolsView {
            full: output.full + Seq::new(
                results.len(),
                |j: int| processed(s.lane.backlog[j], results[j]),
            ),
            ..output
        }),
        payload_total(s.run(output, results).1.full) == payload_total(output.full) + payload_total(
            s.lane.backlog.subrange(0, results.len() as int),
        ),
    decreases results.len(),
{
    let k = results.len() as int;
    let n = s.lane.backlog.len() as int;
    let passed = Seq::new(results.len(), |j: int| processed(s.lane.backlog[j], results[j]));
    if k == 0 {
        assert(s.lane.backlog.subrange(0, n) =~= s.lane.backlog);
        assert(output.full + passed =~= output.full);
        assert(s.lane.backlog.subrange(0, 0) =~= Seq::<FullView>::empty());
    } else {
        let fewer = results.drop_last();
        lemma_invocation_passes_all(s, output, fewer);
        let before = s.run(output, fewer);
        let waiting = s.lane.backlog.subrange(k - 1, n);
        assert(before.0.lane.backlog == waiting);
        assert(waiting.first() == s.lane.backlog[k - 1]);
        assert(waiting.drop_first() =~= s.lane.backlog.subrange(k, n));
        assert(results.last() == results[k - 1]);
        let earlier = Seq::new(fewer.len(), |j: int| processed(s.lane.backlog[j], fewer[j]));
        let last = processed(s.lane.backlog[k - 1], results[k - 1]);
        assert((output.full + earlier).push(last) =~= output.full + passed);
        crate::h2d_protocol::lemma_used_total_push(before.1.full, last);
        crate::h2d_protocol::lemma_used_total_push(
            s.lane.backlog.subrange(0, k - 1),
            s.lane.backlog[k - 1],
        );
        assert(s.lane.backlog.subrange(0, k - 1).push(s.lane.backlog[k - 1])
            =~= s.lane.backlog.subrange(0, k));
    }
}

/// From taking the input to the end of the invocation. A stage whose line is
/// empty takes the full chunks of its input and passes each of them on, as
/// above: afterwards its line is empty again, and the full pool of the output
/// has grown by exactly the chunks that the input held, in their order, with
/// as much payload as they brought.
pub proof fn lemma_whole_invocation(
    s: VulkanView,
    input: PoolsView,
    output: PoolsView,
    results: Seq<Seq<u8>>,
)
    requires
        s.lane.idle(),
        results.len() == input.full.len(),
        forall|j: int|
            0 <= j < results.len() ==> groups_for((#[trigger] input.full[j]).used) <= u32::MAX,
        forall|j: int| 0 <= j < results.len() ==> (#[trigger] results[j]).len() == input.full[j].used,
    ensures
        s.collected(input).admits(output, results),
        s.collected(input).run(output, results).0 == s,
        s.collected(input).run(output, results).1 == (PoolsView {
            full: output.full + Seq::new(
                results.len(),
                |j: int| processed(input.full[j], results[j]),
            ),
            ..output
        }),
        payload_total(s.collected(input).run(output, results).1.full) == payload_total(
            output.full,
        ) + payload_total(input.full),
{
    let taken = s.collected(input);
    assert(taken.lane.backlog =~= input.full);
    lemma_invocation_passes_all(taken, output, results);
    let n = input.full.len() as int;
    assert(input.full.subrange(n, n) =~= Seq::<FullView>::empty());
    assert(s.lane.backlog =~= Seq::<FullView>::empty());
    assert(input.full.subrange(0, n) =~= input.full);
    assert(Seq::new(results.len(), |j: int| processed(taken.lane.backlog[j], results[j]))
        =~= Seq::new(results.len(), |j: int| processed(input.full[j], results[j])));
}

/// Sets up the stage that works in place.
#[derive(Debug)]
pub struct VulkanBuilder {
    capacity: u64,
}

impl VulkanBuilder {
    /// A builder for a stage with chunks of `DEFAULT_CAPACITY` bytes.
    pub fn new() -> (builder: VulkanBuilder)
        ensures
            builder.spec_capacity() == DEFAULT_CAPACITY,
    {
        VulkanBuilder { capacity: DEFAULT_CAPACITY }
    }

    /// The capacity that the chunks of the stage will have.
    pub closed spec fn spec_capacity(&self) -> u64 {
        self.capacity
    }

    /// Sets the capacity of the chunks, in bytes.
    pub fn capacity(self, c: u64) -> (builder: VulkanBuilder)
        ensures
            builder.spec_capacity() == c,
    {
        let mut builder = self;
        builder.capacity = c;
        builder
    }

    /// The block.
    pub fn build(self) -> (block: Block<Vulkan>)
        ensures
            block@.name == "Vulkan"@,
            (block@.sio, block@.mio) == stage_ports(),
            block@.kernel matches Kernel::Async(stage) && stage@ == (VulkanView {
                capacity: self.spec_capacity(),
                next_id: 0,
                lane: LaneView::vacant(),
            }),
    {
        Vulkan::new(self.capacity)
    }
}

} // verus!
