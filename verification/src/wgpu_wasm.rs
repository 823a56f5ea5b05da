//! The accelerator stage that works through staging buffers: the payload of
//! a chunk that arrives full is run on the device and read back into a new
//! chunk for the output, while the chunk that carried it returns to the input
//! at once. One staging buffer is taken per chunk on the device and regained
//! per chunk that comes back from the output.

use vstd::prelude::*;
use crate::block::{Block, Kernel, MessageIoBuilder, StreamIoBuilder, WorkIo};
use crate::chunk::{blank, BufferEmpty, FullView};
use crate::d2h::WriterD2H;
use crate::dispatch::ITEM_SIZE;
use crate::h2d::ReaderH2D;
use crate::lane::{
    following, groups_for, next_identity, nth_after, payload_total, Lane, LaneView, StageError,
};
use crate::message::AsyncMessage;
use crate::pools::{Pools, PoolsView};
use crate::vulkan::stage_ports;

verus! {

/// What the stage is.
pub struct WgpuView {
    /// Items that fit one chunk.
    pub buffer_items: u64,
    /// Staging buffers that are free.
    pub output_buffers: usize,
    /// Payload bytes run on the device so far; stays at the largest value
    /// once it is reached.
    pub processed_bytes: u64,
    /// The identity that the next chunk that the stage makes gets.
    pub next_id: u64,
    pub lane: LaneView,
}

/// The two messages due after a chunk came off the device.
#[derive(Debug, PartialEq, Eq)]
pub struct Notices {
    /// For the reader of the output: a full chunk waits.
    pub downstream: AsyncMessage,
    /// For the writer of the input: an empty chunk waits.
    pub upstream: AsyncMessage,
}

/// The stage that works through staging buffers.
#[derive(Debug)]
pub struct WgpuWasm {
    buffer_items: u64,
    output_buffers: usize,
    processed_bytes: u64,
    next_id: u64,
    lane: Lane,
}

impl View for WgpuWasm {
    type V = WgpuView;

    closed spec fn view(&self) -> WgpuView {
        WgpuView {
            buffer_items: self.buffer_items,
            output_buffers: self.output_buffers,
            processed_bytes: self.processed_bytes,
            next_id: self.next_id,
            lane: self.lane@,
        }
    }
}

/// `a + b`, or the largest value where that is beyond it.
pub open spec fn capped_u64(a: u64, b: nat) -> u64 {
    if a + b > u64::MAX {
        u64::MAX
    } else {
        (a + b) as u64
    }
}

/// `a + b`, or the largest value where that is beyond it.
pub open spec fn capped_usize(a: usize, b: nat) -> usize {
    if a + b > usize::MAX {
        usize::MAX
    } else {
        (a + b) as usize
    }
}

impl WgpuView {
    /// A stage as it is made.
    pub open spec fn fresh(buffer_items: u64) -> WgpuView {
        WgpuView {
            buffer_items,
            output_buffers: 0,
            processed_bytes: 0,
            next_id: 0,
            lane: LaneView::vacant(),
        }
    }

    /// Whether a launch is due: a chunk waits, nothing is on the device, and
    /// a staging buffer is free.
    pub open spec fn ready(self) -> bool {
        self.lane.ready() && self.output_buffers > 0
    }

    /// What completing says: an error when nothing is in flight, when the
    /// device gave no result, or when the result is shorter than the payload.
    pub open spec fn verdict(self, result: Option<Seq<u8>>) -> Result<Notices, StageError> {
        if self.lane.in_flight is None {
            Err(StageError::NothingInFlight)
        } else if result is None {
            Err(StageError::DeviceFailed)
        } else if result->0.len() < self.lane.in_flight->0.used {
            Err(StageError::ResultLength)
        } else {
            Ok(Notices { downstream: AsyncMessage::Notify, upstream: AsyncMessage::Notify })
        }
    }

    /// The stage after it took the full chunks of its input in line.
    pub open spec fn collected(self, input: PoolsView) -> WgpuView {
        WgpuView { lane: self.lane.joined(input.full), ..self }
    }

    /// Whether the oldest waiting chunk can go on the device: a launch is due
    /// and one dispatch can take the work groups that the chunk needs.
    pub open spec fn can_launch(self) -> bool {
        self.ready() && self.lane.can_launch()
    }

    /// The stage after the oldest waiting chunk went on the device and took a
    /// staging buffer.
    pub open spec fn launched(self) -> WgpuView {
        WgpuView {
            lane: self.lane.launched(),
            output_buffers: (self.output_buffers - 1) as usize,
            ..self
        }
    }

    /// The stage after the chunk on the device came off it: its payload counts
    /// as processed, and the next chunk that the stage makes gets the next
    /// identity.
    pub open spec fn landed(self) -> WgpuView
        recommends
            self.lane.in_flight is Some,
    {
        WgpuView {
            processed_bytes: capped_u64(self.processed_bytes, self.lane.in_flight->0.used),
            next_id: following(self.next_id),
            lane: self.lane.landed(),
            ..self
        }
    }

    /// The chunk that goes to the output when the chunk on the device comes
    /// off it with `result`: a chunk of the stage's making, with `result` as
    /// its bytes and the payload count of the chunk that went on.
    pub open spec fn made(self, result: Seq<u8>) -> FullView
        recommends
            self.lane.in_flight is Some,
    {
        FullView { id: self.next_id, bytes: result, used: self.lane.in_flight->0.used }
    }
}

/// A stage between the pools of its input and those of its output.
pub struct WgpuRun {
    pub stage: WgpuView,
    pub input: PoolsView,
    pub output: PoolsView,
}

impl WgpuRun {
    /// After the chunk on the device came off it with `result`: the chunk
    /// made of the result is last of the full pool of the output, and the
    /// chunk that went on is back, empty, in the pool of the input.
    pub open spec fn completed(self, result: Seq<u8>) -> WgpuRun
        recommends
            self.stage.lane.in_flight is Some,
    {
        WgpuRun {
            stage: self.stage.landed(),
            input: self.input.with_empty(self.stage.lane.in_flight->0.emptied()),
            output: self.output.with_full(self.stage.made(result)),
        }
    }

    /// After the oldest waiting chunk went on the device.
    pub open spec fn launched(self) -> WgpuRun {
        WgpuRun { stage: self.stage.launched(), ..self }
    }

    /// After one chunk for each of `results` went on the device, oldest first,
    /// and came off it with that result.
    pub open spec fn run(self, results: Seq<Seq<u8>>) -> WgpuRun
        decreases results.len(),
    {
        if results.len() == 0 {
            self
        } else {
            self.run(results.drop_last()).launched().completed(results.last())
        }
    }

    /// Whether every step of such a run is one that `launch` and `complete`
    /// carry out: each time a chunk can go on the device, and its result is
    /// accepted.
    pub open spec fn admits(self, results: Seq<Seq<u8>>) -> bool
        decreases results.len(),
    {
        results.len() > 0 ==> {
            let before = self.run(results.drop_last());
            &&& self.admits(results.drop_last())
            &&& before.stage.can_launch()
            &&& before.stage.launched().verdict(Some(results.last())) is Ok
        }
    }
}

/// The bytes of a result, if there is one.
pub open spec fn result_bytes(result: Option<Vec<u8>>) -> Option<Seq<u8>> {
    match result {
        Some(bytes) => Some(bytes@),
        None => None,
    }
}

/// Counting payload as processed chunk by chunk is counting it at once.
pub proof fn lemma_capped_twice(count: u64, first: nat, second: nat)
    ensures
        capped_u64(capped_u64(count, first), second) == capped_u64(count, first + second),
{
}

/// A whole invocation passes every chunk on. Let nothing be on the device,
/// let there be a free staging buffer for each of the first `results.len()`
/// waiting chunks, let each of these need no more work groups than a dispatch
/// takes, and let each result be no shorter than the payload of its chunk.
/// Then every launch and every completion of the run succeeds, and at its
/// end: behind what the full pool of the output held stands one chunk for
/// each of them, in the order in which they waited, each with the payload
/// count of its chunk and its result as bytes; the chunks themselves are
/// back, empty and in that order, in the pool of the input; the payload of
/// all of them counts as processed; the chunks behind them still wait, and
/// nothing is on the device. So the payload passed on is the payload taken,
/// byte count for byte count.
pub proof fn lemma_invocation_passes_all(r: WgpuRun, results: Seq<Seq<u8>>)
    requires
        r.stage.lane.in_flight is None,
        results.len() <= r.stage.lane.backlog.len(),
        results.len() <= r.stage.output_buffers,
        forall|j: int|
            0 <= j < results.len() ==> groups_for((#[trigger] r.stage.lane.backlog[j]).used)
                <= u32::MAX,
        forall|j: int|
            0 <= j < results.len() ==> (#[trigger] results[j]).len()
                >= r.stage.lane.backlog[j].used,
    ensures
        r.admits(results),
        r.run(results).stage == (WgpuView {
            lane: LaneView {
                backlog: r.stage.lane.backlog.subrange(
                    results.len() as int,
                    r.stage.lane.backlog.len() as int,
                ),
                in_flight: None,
            },
            output_buffers: (r.stage.output_buffers - results.len()) as usize,
            processed_bytes: capped_u64(
                r.stage.processed_bytes,
                payload_total(r.stage.lane.backlog.subrange(0, results.len() as int)),
            ),
            next_id: nth_after(r.stage.next_id, results.len()),
            ..r.stage
        }),
        r.run(results).output == (PoolsView {
            full: r.output.full + Seq::new(
                results.len(),
                |j: int|
                    FullView {
                        id: nth_after(r.stage.next_id, j as nat),
                        bytes: results[j],
                        used: r.stage.lane.backlog[j].used,
                    },
            ),
            ..r.output
        }),
        r.run(results).input == (PoolsView {
            empty: r.input.empty + Seq::new(
                results.len(),
                |j: int| r.stage.lane.backlog[j].emptied(),
            ),
            ..r.input
        }),
        payload_total(r.run(results).output.full) == payload_total(r.output.full) + payload_total(
            r.stage.lane.backlog.subrange(0, results.len() as int),
        ),
    decreases results.len(),
{
    let k = results.len() as int;
    let backlog = r.stage.lane.backlog;
    let n = backlog.len() as int;
    let made = Seq::new(
        results.len(),
        |j: int|
            FullView {
                id: nth_after(r.stage.next_id, j as nat),
                bytes: results[j],
                used: backlog[j].used,
            },
    );
    let back = Seq::new(results.len(), |j: int| backlog[j].emptied());
    if k == 0 {
        assert(backlog.subrange(0, n) =~= backlog);
        assert(backlog.subrange(0, 0) =~= Seq::<FullView>::empty());
        assert(r.output.full + made =~= r.output.full);
        assert(r.input.empty + back =~= r.input.empty);
    } else {
        let fewer = results.drop_last();
        lemma_invocation_passes_all(r, fewer);
        let before = r.run(fewer);
        let waiting = backlog.subrange(k - 1, n);
        assert(before.stage.lane.backlog == waiting);
        assert(waiting.first() == backlog[k - 1]);
        assert(waiting.drop_first() =~= backlog.subrange(k, n));
        assert(results.last() == results[k - 1]);
        let earlier_made = Seq::new(
            fewer.len(),
            |j: int|
                FullView {
                    id: nth_after(r.stage.next_id, j as nat),
                    bytes: fewer[j],
                    used: backlog[j].used,
                },
        );
        let earlier_back = Seq::new(fewer.len(), |j: int| backlog[j].emptied());
        let last = FullView {
            id: nth_after(r.stage.next_id, (k - 1) as nat),
            bytes: results[k - 1],
            used: backlog[k - 1].used,
        };
        assert((r.output.full + earlier_made).push(last) =~= r.output.full + made);
        assert((r.input.empty + earlier_back).push(backlog[k - 1].emptied()) =~= r.input.empty
            + back);
        crate::h2d_protocol::lemma_used_total_push(before.output.full, last);
        crate::h2d_protocol::lemma_used_total_push(backlog.subrange(0, k - 1), backlog[k - 1]);
        assert(backlog.subrange(0, k - 1).push(backlog[k - 1]) =~= backlog.subrange(0, k));
        lemma_capped_twice(
            r.stage.processed_bytes,
            payload_total(backlog.subrange(0, k - 1)),
            backlog[k - 1].used,
        );
        assert(following(nth_after(r.stage.next_id, (k - 1) as nat)) == nth_after(
            r.stage.next_id,
            k as nat,
        ));
    }
}

/// From taking the input to the end of the invocation. A stage whose line is
/// empty, with a free staging buffer for each full chunk of its input, takes
/// those chunks and passes each of them on, as above: afterwards its line is
/// empty again, the full pool of the output has grown by one chunk for each
/// that the input held, in their order and with as much payload as they
/// brought, and the stage has processed that much more.
pub proof fn lemma_whole_invocation(r: WgpuRun, results: Seq<Seq<u8>>)
    requires
        r.stage.lane.idle(),
        results.len() == r.input.full.len(),
        results.len() <= r.stage.output_buffers,
        forall|j: int|
            0 <= j < results.len() ==> groups_for((#[trigger] r.input.full[j]).used) <= u32::MAX,
        forall|j: int|
            0 <= j < results.len() ==> (#[trigger] results[j]).len() >= r.input.full[j].used,
    ensures
        ({
            let taken = WgpuRun {
                stage: r.stage.collected(r.input),
                input: r.input.without_full(),
                ..r
            };
            &&& taken.admits(results)
            &&& taken.run(results).stage.lane.idle()
            &&& taken.run(results).stage.processed_bytes == capped_u64(
                r.stage.processed_bytes,
                payload_total(r.input.full),
            )
            &&& taken.run(results).output.full.len() == r.output.full.len() + results.len()
            &&& forall|j: int|
                0 <= j < results.len() ==> (#[trigger] taken.run(results).output.full[r.output.full.len()
                    + j]).used == r.input.full[j].used && taken.run(
                    results,
                ).output.full[r.output.full.len() + j].bytes == results[j]
            &&& payload_total(taken.run(results).output.full) == payload_total(r.output.full)
                + payload_total(r.input.full)
        }),
{
    let taken = WgpuRun { stage: r.stage.collected(r.input), input: r.input.without_full(), ..r };
    assert(taken.stage.lane.backlog =~= r.input.full);
    lemma_invocation_passes_all(taken, results);
    let n = r.input.full.len() as int;
    assert(r.input.full.subrange(n, n) =~= Seq::<FullView>::empty());
    assert(r.input.full.subrange(0, n) =~= r.input.full);
}

impl WgpuWasm {
    /// A block called `Wgpu` around a stage whose chunks hold `buffer_items`
    /// items.
    pub fn new(buffer_items: u64) -> (block: Block<WgpuWasm>)
        ensures
            block@.name == "Wgpu"@,
            (block@.sio, block@.mio) == stage_ports(),
            block@.kernel matches Kernel::Async(stage) && stage@ == WgpuView::fresh(buffer_items),
    {
        let sio = StreamIoBuilder::new().add_input("in", ITEM_SIZE).add_output(
            "out",
            ITEM_SIZE,
        ).build();
        let mio = MessageIoBuilder::new().build();
        assert(sio@.inputs =~= stage_ports().0.inputs);
        assert(sio@.outputs =~= stage_ports().0.outputs);
        Block::new_async(
            "Wgpu",
            sio,
            mio,
            WgpuWasm {
                buffer_items,
                output_buffers: 0,
                processed_bytes: 0,
                next_id: 0,
                lane: Lane::new(),
            },
        )
    }

    /// Payload bytes run on the device so far.
    pub fn processed_bytes(&self) -> (n: u64)
        ensures
            n == self@.processed_bytes,
    {
        self.processed_bytes
    }

    /// Staging buffers that are free.
    pub fn output_buffers(&self) -> (n: usize)
        ensures
            n == self@.output_buffers,
    {
        self.output_buffers
    }

    /// Starts the stage: one staging buffer becomes free, one zeroed chunk
    /// with the next identity of the stage and room for the stage's items goes
    /// to the empty pool of the input, and the `Notify` for the writer comes
    /// back. Where a chunk of that size cannot be addressed, nothing happens.
    pub fn init(&mut self, input: &mut ReaderH2D, pools: &mut Pools) -> (started: Result<
        AsyncMessage,
        StageError,
    >)
        ensures
            final(input)@ == old(input)@,
            old(self)@.buffer_items * ITEM_SIZE <= usize::MAX ==> started == Ok::<
                AsyncMessage,
                StageError,
            >(AsyncMessage::Notify) && final(self)@ == (WgpuView {
                output_buffers: capped_usize(old(self)@.output_buffers, 1),
                next_id: following(old(self)@.next_id),
                ..old(self)@
            }) && final(pools)@ == old(pools)@.with_empty(
                blank(old(self)@.next_id, (old(self)@.buffer_items * ITEM_SIZE) as nat),
            ),
            old(self)@.buffer_items * ITEM_SIZE > usize::MAX ==> started == Err::<
                AsyncMessage,
                StageError,
            >(StageError::Allocation) && final(self)@ == old(self)@ && final(pools)@ == old(
                pools,
            )@,
    {
        if self.buffer_items > (usize::MAX / ITEM_SIZE) as u64 {
            return Err(StageError::Allocation);
        }
        let bytes: usize = (self.buffer_items as usize) * ITEM_SIZE;
        if self.output_buffers < usize::MAX {
            self.output_buffers = self.output_buffers + 1;
        }
        let notice = input.submit(pools, BufferEmpty::new(self.next_id, bytes));
        self.next_id = next_identity(self.next_id);
        Ok(notice)
    }

    /// Takes back every chunk that came back empty from the output. Each
    /// frees one staging buffer; the chunks themselves are let go.
    pub fn recycle(&mut self, output: &mut WriterD2H, out_pools: &mut Pools) -> (returned: usize)
        ensures
            final(output)@ == old(output)@,
            returned == old(out_pools)@.empty.len(),
            final(out_pools)@ == old(out_pools)@.without_empty(),
            final(self)@ == (WgpuView {
                output_buffers: capped_usize(
                    old(self)@.output_buffers,
                    old(out_pools)@.empty.len(),
                ),
                ..old(self)@
            }),
    {
        let returned = output.buffers(out_pools);
        let n = returned.len();
        if n > usize::MAX - self.output_buffers {
            self.output_buffers = usize::MAX;
        } else {
            self.output_buffers = self.output_buffers + n;
        }
        n
    }

    /// Takes all full chunks from the input and lines them up.
    pub fn collect(&mut self, input: &mut ReaderH2D, pools: &mut Pools)
        ensures
            final(input)@ == old(input)@,
            final(pools)@ == old(pools)@.without_full(),
            final(self)@ == old(self)@.collected(old(pools)@),
    {
        self.lane.collect(input, pools);
    }

    /// Puts the oldest waiting chunk on the device and takes a staging buffer
    /// for it, unless a chunk is there, none waits, or no staging buffer is
    /// free: then the stage does less in this invocation. Says how many work
    /// groups to dispatch for the chunk.
    pub fn launch(&mut self) -> (groups: Result<Option<u32>, StageError>)
        ensures
            !old(self)@.ready() ==> groups == Ok::<Option<u32>, StageError>(None) && final(self)@
                == old(self)@,
            old(self)@.can_launch() ==> groups == Ok::<Option<u32>, StageError>(
                Some(groups_for(old(self)@.lane.backlog.first().used) as u32),
            ) && final(self)@ == old(self)@.launched(),
            old(self)@.ready() && !old(self)@.can_launch() ==> groups == Err::<
                Option<u32>,
                StageError,
            >(StageError::DispatchTooLarge) && final(self)@ == old(self)@,
    {
        if self.output_buffers == 0 {
            return Ok(None);
        }
        match self.lane.launch() {
            Ok(Some(groups)) => {
                self.output_buffers = self.output_buffers - 1;
                Ok(Some(groups))
            },
            Ok(None) => Ok(None),
            Err(e) => Err(e),
        }
    }

    /// The payload of the chunk on the device.
    pub fn payload(&self) -> (out: &[u8])
        requires
            self@.lane.in_flight is Some,
        ensures
            out@ == self@.lane.in_flight->0.payload(),
    {
        self.lane.payload()
    }

    /// Takes the chunk off the device. With a result that is no shorter than
    /// the payload, the result becomes a new chunk that goes to the full pool
    /// of the output with the payload count of the chunk that went on; that
    /// chunk returns, empty, to the input; the payload counts as processed;
    /// and the two `Notify` come back. Without a result the device has
    /// failed; the chunk then stays where it is, as it does when the result is
    /// too short or nothing was in flight.
    pub fn complete(
        &mut self,
        result: Option<Vec<u8>>,
        input: &mut ReaderH2D,
        in_pools: &mut Pools,
        output: &mut WriterD2H,
        out_pools: &mut Pools,
    ) -> (done: Result<Notices, StageError>)
        ensures
            final(input)@ == old(input)@,
            final(output)@ == old(output)@,
            done == old(self)@.verdict(result_bytes(result)),
            done is Ok ==> (WgpuRun {
                stage: final(self)@,
                input: final(in_pools)@,
                output: final(out_pools)@,
            }) == (WgpuRun {
                stage: old(self)@,
                input: old(in_pools)@,
                output: old(out_pools)@,
            }).completed(result->0@),
            done is Err ==> final(self)@ == old(self)@ && final(out_pools)@ == old(out_pools)@
                && final(in_pools)@ == old(in_pools)@,
    {
        let used = match self.lane.in_flight_used() {
            Some(used) => used,
            None => {
                return Err(StageError::NothingInFlight);
            },
        };
        let data = match result {
            Some(data) => data,
            None => {
                return Err(StageError::DeviceFailed);
            },
        };
        if data.len() < used {
            return Err(StageError::ResultLength);
        }
        match self.lane.land() {
            Some(chunk) => {
                if used as u64 > u64::MAX - self.processed_bytes {
                    self.processed_bytes = u64::MAX;
                } else {
                    self.processed_bytes = self.processed_bytes + used as u64;
                }
                let full = BufferEmpty::from_vec(self.next_id, data).into_full(used);
                self.next_id = next_identity(self.next_id);
                let downstream = output.submit(out_pools, full);
                let upstream = input.submit(in_pools, chunk.into_empty());
                Ok(Notices { downstream, upstream })
            },
            None => Err(StageError::NothingInFlight),
        }
    }

    /// Ends the invocation: the block counts as finished once the stream is
    /// over for the input and no payload is left before the output.
    pub fn conclude(&self, io: &mut WorkIo, input: &ReaderH2D, pools: &Pools)
        ensures
            final(io).finished == (old(io).finished || (input@.observes_end(pools@)
                && self@.lane.idle())),
    {
        self.lane.conclude(io, input, pools);
    }
}

/// Sets up the stage that works through staging buffers.
#[derive(Debug)]
pub struct WgpuBuilderWasm {
    buffer_items: u64,
}

impl WgpuBuilderWasm {
    /// A builder for a stage whose chunks hold `buffer_items` items.
    pub fn new(buffer_items: u64) -> (builder: WgpuBuilderWasm)
        ensures
            builder.spec_buffer_items() == buffer_items,
    {
        WgpuBuilderWasm { buffer_items }
    }

    /// The number of items that the chunks of the stage will hold.
    pub closed spec fn spec_buffer_items(&self) -> u64 {
        self.buffer_items
    }

    /// Sets the number of items that a chunk holds.
    pub fn buffer_items(self, items: u64) -> (builder: WgpuBuilderWasm)
        ensures
            builder.spec_buffer_items() == items,
    {
        let mut builder = self;
        builder.buffer_items = items;
        builder
    }

    /// The block.
    pub fn build(self) -> (block: Block<WgpuWasm>)
        ensures
            block@.name == "Wgpu"@,
            (block@.sio, block@.mio) == stage_ports(),
            block@.kernel matches Kernel::Async(stage) && stage@ == WgpuView::fresh(
                self.spec_buffer_items(),
            ),
    {
        WgpuWasm::new(self.buffer_items)
    }
}

} // verus!
