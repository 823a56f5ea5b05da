//! The decisions of the scheduler: which block has mail, which may run next,
//! what a finished invocation means for a block, and when the graph is over.
//! Running a kernel and waiting for it are left to the caller.

use vstd::prelude::*;
use crate::block::WorkIo;
use crate::message::{AsyncMessage, Pmt};
use crate::topology::Topology;

verus! {

/// The two steps of a kernel.
#[derive(Debug, Clone, Copy, PartialEq, Eq)]
pub enum Stage {
    Init,
    Work,
}

/// Where a block stands.
#[derive(Debug, Clone, Copy, PartialEq, Eq)]
pub enum Phase {
    /// Registered and connected; `init` has not come back yet.
    Initializing,
    /// `init` succeeded; `work` is invoked whenever the block has mail.
    Runnable,
    /// `work` reported the block finished; it is not invoked again.
    Finished,
    /// The kernel failed in the given step; the block is not invoked again.
    Failed { stage: Stage },
}

/// The one error of a failed run: which block failed, and in which step.
#[derive(Debug, Clone, Copy, PartialEq, Eq)]
pub struct RunError {
    pub block: usize,
    pub stage: Stage,
}

/// What became of a message that was sent.
#[derive(Debug, PartialEq, Eq)]
pub enum Delivery {
    /// It waits in the mailbox, behind those that waited before.
    Queued,
    /// It was a `Notify` and one waits already: the two count as one.
    Coalesced,
    /// The block takes no mail any more; the message is let go.
    Dropped,
    /// The mailbox is full. A `Notify` is let go; any other message comes
    /// back to be sent again.
    Full { returned: Option<AsyncMessage> },
}

/// Why a call to a message port was refused.
#[derive(Debug, Clone, Copy, PartialEq, Eq)]
pub enum CallError {
    /// There is no block of that identity.
    UnknownBlock,
    /// The block has no message input of that number.
    UnknownPort,
}

/// Whether a `Notify` waits among `queue`.
pub open spec fn holds_notify(queue: Seq<AsyncMessage>) -> bool {
    exists|i: int| 0 <= i < queue.len() && queue[i] is Notify
}

/// What a mailbox is: the messages that wait, oldest first, and how many may
/// wait at most.
pub struct MailboxView {
    pub queue: Seq<AsyncMessage>,
    pub capacity: usize,
}

impl MailboxView {
    /// What becomes of `message` sent to this mailbox.
    pub open spec fn verdict(self, message: AsyncMessage) -> Delivery {
        if message is Notify && holds_notify(self.queue) {
            Delivery::Coalesced
        } else if self.queue.len() >= self.capacity {
            Delivery::Full {
                returned: if message is Notify {
                    None
                } else {
                    Some(message)
                },
            }
        } else {
            Delivery::Queued
        }
    }

    /// The mailbox after `message` was sent to it.
    pub open spec fn sent(self, message: AsyncMessage) -> MailboxView {
        if self.verdict(message) is Queued {
            MailboxView { queue: self.queue.push(message), ..self }
        } else {
            self
        }
    }
}

/// The bounded mailbox of a block.
#[derive(Debug)]
pub struct Mailbox {
    queue: Vec<AsyncMessage>,
    capacity: usize,
}

impl View for Mailbox {
    type V = MailboxView;

    closed spec fn view(&self) -> MailboxView {
        MailboxView { queue: self.queue@, capacity: self.capacity }
    }
}

impl Mailbox {
    /// A mailbox without mail, for at most `capacity` messages.
    pub fn new(capacity: usize) -> (mailbox: Mailbox)
        ensures
            mailbox@ == (MailboxView { queue: Seq::empty(), capacity }),
    {
        Mailbox { queue: Vec::new(), capacity }
    }

    /// Number of messages that wait.
    pub fn len(&self) -> (n: usize)
        ensures
            n == self@.queue.len(),
    {
        self.queue.len()
    }

    /// Whether a `Notify` waits.
    pub fn has_notify(&self) -> (found: bool)
        ensures
            found == holds_notify(self@.queue),
    {
        let mut i: usize = 0;
        while i < self.queue.len()
            invariant
                i <= self.queue@.len(),
                forall|j: int| 0 <= j < i ==> !(self.queue@[j] is Notify),
            decreases self.queue@.len() - i,
        {
            match &self.queue[i] {
                AsyncMessage::Notify => {
                    return true;
                },
                _ => {},
            }
            i = i + 1;
        }
        false
    }

    /// Sends `message`. A `Notify` counts as one with a `Notify` that waits
    /// already; a full mailbox takes nothing; else the message waits behind
    /// the others.
    pub fn send(&mut self, message: AsyncMessage) -> (delivery: Delivery)
        ensures
            delivery == old(self)@.verdict(message),
            final(self)@ == old(self)@.sent(message),
    {
        let notify = match &message {
            AsyncMessage::Notify => true,
            _ => false,
        };
        if notify && self.has_notify() {
            return Delivery::Coalesced;
        }
        if self.queue.len() >= self.capacity {
            return Delivery::Full {
                returned: if notify {
                    None
                } else {
                    Some(message)
                },
            };
        }
        self.queue.push(message);
        Delivery::Queued
    }

    /// Takes the oldest message, if one waits.
    pub fn receive(&mut self) -> (message: Option<AsyncMessage>)
        ensures
            old(self)@.queue.len() == 0 ==> message is None && final(self)@ == old(self)@,
            old(self)@.queue.len() > 0 ==> message == Some(old(self)@.queue.first())
                && final(self)@ == (MailboxView {
                queue: old(self)@.queue.drop_first(),
                ..old(self)@
            }),
    {
        if self.queue.len() == 0 {
            None
        } else {
            let message = self.queue.remove(0);
            assert(self@.queue =~= old(self)@.queue.drop_first());
            Some(message)
        }
    }
}

/// What the scheduler knows of one block.
pub struct SlotView {
    pub phase: Phase,
    pub mailbox: MailboxView,
}

impl SlotView {
    /// Whether the block may run: it is runnable and has mail.
    pub open spec fn eligible(self) -> bool {
        self.phase is Runnable && self.mailbox.queue.len() > 0
    }

    /// Whether the block is over, one way or the other.
    pub open spec fn over(self) -> bool {
        self.phase is Finished || self.phase is Failed
    }
}

#[derive(Debug)]
struct Slot {
    phase: Phase,
    mailbox: Mailbox,
}

impl View for Slot {
    type V = SlotView;

    closed spec fn view(&self) -> SlotView {
        SlotView { phase: self.phase, mailbox: self.mailbox@ }
    }
}

/// What the scheduler is: one slot per block, by identity.
pub struct SchedulerView {
    pub slots: Seq<SlotView>,
}

impl SchedulerView {
    /// Whether `block` is the eligible block of least identity.
    pub open spec fn is_next(self, block: int) -> bool {
        &&& 0 <= block < self.slots.len()
        &&& self.slots[block].eligible()
        &&& forall|j: int| 0 <= j < block ==> !(#[trigger] self.slots[j]).eligible()
    }

    /// Whether every block is over.
    pub open spec fn terminated(self) -> bool {
        forall|j: int| 0 <= j < self.slots.len() ==> (#[trigger] self.slots[j]).over()
    }

    /// Whether `block` is the failed block of least identity.
    pub open spec fn is_first_failure(self, block: int) -> bool {
        &&& 0 <= block < self.slots.len()
        &&& self.slots[block].phase is Failed
        &&& forall|j: int| 0 <= j < block ==> !((#[trigger] self.slots[j]).phase is Failed)
    }

    /// The scheduler with the slot of `block` replaced.
    pub open spec fn with_slot(self, block: int, slot: SlotView) -> SchedulerView {
        SchedulerView { slots: self.slots.update(block, slot) }
    }

    /// What becomes of `message` sent to `to`.
    pub open spec fn verdict(self, to: usize, message: AsyncMessage) -> Delivery {
        if to >= self.slots.len() || self.slots[to as int].over() {
            Delivery::Dropped
        } else {
            self.slots[to as int].mailbox.verdict(message)
        }
    }

    /// The scheduler after `message` was sent to `to`.
    pub open spec fn sent(self, to: usize, message: AsyncMessage) -> SchedulerView {
        if self.verdict(to, message) is Queued {
            self.with_slot(
                to as int,
                SlotView {
                    mailbox: self.slots[to as int].mailbox.sent(message),
                    ..self.slots[to as int]
                },
            )
        } else {
            self
        }
    }

    /// The slot of a block after an invocation of `work` came back: a failed
    /// kernel fails the block, a finished one finishes it and lets its mail
    /// go, and else the block stays as it is.
    pub open spec fn after_work(slot: SlotView, outcome: Option<WorkIo>) -> SlotView {
        match outcome {
            None => SlotView { phase: Phase::Failed { stage: Stage::Work }, ..slot },
            Some(io) => if io.finished {
                SlotView {
                    phase: Phase::Finished,
                    mailbox: MailboxView { queue: Seq::empty(), ..slot.mailbox },
                }
            } else {
                slot
            },
        }
    }
}

/// The scheduler's record of the blocks of one graph.
#[derive(Debug)]
pub struct Scheduler {
    slots: Vec<Slot>,
}

impl View for Scheduler {
    type V = SchedulerView;

    closed spec fn view(&self) -> SchedulerView {
        SchedulerView { slots: self.slots@.map_values(|s: Slot| s@) }
    }
}

impl Scheduler {
    /// A scheduler for `blocks` blocks, each initializing, each with an empty
    /// mailbox for at most `capacity` messages.
    pub fn new(blocks: usize, capacity: usize) -> (scheduler: Scheduler)
        ensures
            scheduler@.slots == Seq::new(
                blocks as nat,
                |i: int|
                    SlotView {
                        phase: Phase::Initializing,
                        mailbox: MailboxView { queue: Seq::empty(), capacity },
                    },
            ),
    {
        let mut slots: Vec<Slot> = Vec::new();
        let ghost fresh = SlotView {
            phase: Phase::Initializing,
            mailbox: MailboxView { queue: Seq::empty(), capacity },
        };
        let mut i: usize = 0;
        while i < blocks
            invariant
                i <= blocks,
                fresh == (SlotView {
                    phase: Phase::Initializing,
                    mailbox: MailboxView { queue: Seq::empty(), capacity },
                }),
                slots@.map_values(|s: Slot| s@) =~= Seq::new(i as nat, |k: int| fresh),
            decreases blocks - i,
        {
            let ghost before = slots@;
            let slot = Slot { phase: Phase::Initializing, mailbox: Mailbox::new(capacity) };
            assert(slot@ == fresh);
            slots.push(slot);
            assert(slots@ == before.push(slot));
            assert(slots@.map_values(|s: Slot| s@) =~= before.map_values(|s: Slot| s@).push(
                fresh,
            ));
            i = i + 1;
        }
        let scheduler = Scheduler { slots };
        assert(scheduler@.slots =~= Seq::new(blocks as nat, |i: int| fresh));
        scheduler
    }

    /// Number of blocks.
    pub fn blocks(&self) -> (n: usize)
        ensures
            n == self@.slots.len(),
    {
        self.slots.len()
    }

    /// Where `block` stands, if there is such a block.
    pub fn phase(&self, block: usize) -> (phase: Option<Phase>)
        ensures
            block < self@.slots.len() ==> phase == Some(self@.slots[block as int].phase),
            block >= self@.slots.len() ==> phase is None,
    {
        if block < self.slots.len() {
            Some(self.slots[block].phase)
        } else {
            None
        }
    }

    /// Number of messages that wait for `block`; 0 where there is no such
    /// block.
    pub fn mail(&self, block: usize) -> (n: usize)
        ensures
            block < self@.slots.len() ==> n == self@.slots[block as int].mailbox.queue.len(),
            block >= self@.slots.len() ==> n == 0,
    {
        if block < self.slots.len() {
            self.slots[block].mailbox.len()
        } else {
            0
        }
    }

    fn slot(&mut self, block: usize) -> (slot: &mut Slot)
        requires
            block < old(self)@.slots.len(),
        ensures
            (*slot)@ == old(self)@.slots[block as int],
            final(self)@ == old(self)@.with_slot(block as int, (*final(slot))@),
    {
        let ghost before = self.slots@;
        let slot = &mut self.slots[block];
        proof {
            assert(after_borrow(self.slots)@ == before.update(block as int, *final(slot)));
            assert(after_borrow(self.slots)@.map_values(|s: Slot| s@) =~= before.map_values(
                |s: Slot| s@,
            ).update(block as int, (*final(slot))@));
        }
        slot
    }

    /// Notes how `init` of `block` came back. On success the block becomes
    /// runnable and gets a first `Notify`, so that it is invoked once without
    /// having been told anything. On failure the block has failed, and the
    /// error of the run comes back.
    pub fn initialized(&mut self, block: usize, ok: bool) -> (done: Result<(), RunError>)
        requires
            block < old(self)@.slots.len(),
            old(self)@.slots[block as int].phase is Initializing,
        ensures
            ok ==> done is Ok && final(self)@ == old(self)@.with_slot(
                block as int,
                SlotView {
                    phase: Phase::Runnable,
                    mailbox: old(self)@.slots[block as int].mailbox.sent(AsyncMessage::Notify),
                },
            ),
            !ok ==> done == Err::<(), RunError>(RunError { block, stage: Stage::Init })
                && final(self)@ == old(self)@.with_slot(
                block as int,
                SlotView {
                    phase: Phase::Failed { stage: Stage::Init },
                    ..old(self)@.slots[block as int]
                },
            ),
    {
        let slot = self.slot(block);
        if ok {
            slot.phase = Phase::Runnable;
            let _ = slot.mailbox.send(AsyncMessage::Notify);
            Ok(())
        } else {
            slot.phase = Phase::Failed { stage: Stage::Init };
            Err(RunError { block, stage: Stage::Init })
        }
    }

    /// Sends `message` to the mailbox of block `to`. A block that is over, or
    /// that does not exist, takes no mail.
    pub fn send(&mut self, to: usize, message: AsyncMessage) -> (delivery: Delivery)
        ensures
            delivery == old(self)@.verdict(to, message),
            final(self)@ == old(self)@.sent(to, message),
    {
        if to >= self.slots.len() {
            return Delivery::Dropped;
        }
        match self.slots[to].phase {
            Phase::Finished => {
                return Delivery::Dropped;
            },
            Phase::Failed { stage } => {
                return Delivery::Dropped;
            },
            _ => {},
        }
        let slot = self.slot(to);
        let delivery = slot.mailbox.send(message);
        proof {
            let before = old(self)@.slots[to as int];
            if !(delivery is Queued) {
                assert(old(self)@.slots.update(to as int, before) =~= old(self)@.slots);
            }
        }
        delivery
    }

    /// Sends `data` to message input `port_id` of block `block_id`, as a call
    /// that expects no answer. The call is refused where the graph has no
    /// such block, or the block no such port.
    pub fn call<K>(
        &mut self,
        topology: &Topology<K>,
        block_id: usize,
        port_id: usize,
        data: Pmt,
    ) -> (done: Result<Delivery, CallError>)
        ensures
            block_id >= topology@.blocks.len() ==> done == Err::<Delivery, CallError>(
                CallError::UnknownBlock,
            ) && final(self)@ == old(self)@,
            block_id < topology@.blocks.len() && !topology@.has_message_input(block_id, port_id)
                ==> done == Err::<Delivery, CallError>(CallError::UnknownPort) && final(self)@
                == old(self)@,
            topology@.has_message_input(block_id, port_id) ==> done == Ok::<Delivery, CallError>(
                old(self)@.verdict(block_id, AsyncMessage::BlockCall { block_id, port_id, data }),
            ) && final(self)@ == old(self)@.sent(
                block_id,
                AsyncMessage::BlockCall { block_id, port_id, data },
            ),
    {
        if block_id >= topology.blocks_len() {
            return Err(CallError::UnknownBlock);
        }
        if !topology.has_message_input(block_id, port_id) {
            return Err(CallError::UnknownPort);
        }
        Ok(self.send(block_id, AsyncMessage::BlockCall { block_id, port_id, data }))
    }

    /// Sends `data` to message input `port_id` of block `block_id`, as a call
    /// that expects an answer. The call is refused where the graph has no
    /// such block, or the block no such port.
    pub fn callback<K>(
        &mut self,
        topology: &Topology<K>,
        block_id: usize,
        port_id: usize,
        data: Pmt,
    ) -> (done: Result<Delivery, CallError>)
        ensures
            block_id >= topology@.blocks.len() ==> done == Err::<Delivery, CallError>(
                CallError::UnknownBlock,
            ) && final(self)@ == old(self)@,
            block_id < topology@.blocks.len() && !topology@.has_message_input(block_id, port_id)
                ==> done == Err::<Delivery, CallError>(CallError::UnknownPort) && final(self)@
                == old(self)@,
            topology@.has_message_input(block_id, port_id) ==> done == Ok::<Delivery, CallError>(
                old(self)@.verdict(
                    block_id,
                    AsyncMessage::BlockCallback { block_id, port_id, data },
                ),
            ) && final(self)@ == old(self)@.sent(
                block_id,
                AsyncMessage::BlockCallback { block_id, port_id, data },
            ),
    {
        if block_id >= topology.blocks_len() {
            return Err(CallError::UnknownBlock);
        }
        if !topology.has_message_input(block_id, port_id) {
            return Err(CallError::UnknownPort);
        }
        Ok(self.send(block_id, AsyncMessage::BlockCallback { block_id, port_id, data }))
    }

    /// Whether `block` may run: it exists, is runnable, and has mail.
    pub fn eligible(&self, block: usize) -> (may: bool)
        ensures
            may == (block < self@.slots.len() && self@.slots[block as int].eligible()),
    {
        if block >= self.slots.len() {
            return false;
        }
        let slot = &self.slots[block];
        match slot.phase {
            Phase::Runnable => slot.mailbox.len() > 0,
            _ => false,
        }
    }

    /// The block to run next: the eligible block of least identity, or none
    /// where no block is eligible.
    pub fn select(&self) -> (block: Option<usize>)
        ensures
            block is Some ==> self@.is_next(block->0 as int),
            block is None ==> forall|j: int|
                0 <= j < self@.slots.len() ==> !(#[trigger] self@.slots[j]).eligible(),
    {
        let mut i: usize = 0;
        while i < self.slots.len()
            invariant
                i <= self@.slots.len(),
                forall|j: int| 0 <= j < i ==> !(#[trigger] self@.slots[j]).eligible(),
            decreases self@.slots.len() - i,
        {
            if self.eligible(i) {
                return Some(i);
            }
            i = i + 1;
        }
        None
    }

    /// Takes the oldest message that waits for `block`.
    pub fn receive(&mut self, block: usize) -> (message: Option<AsyncMessage>)
        ensures
            block >= old(self)@.slots.len() || old(self)@.slots[block as int].mailbox.queue.len()
                == 0 ==> message is None && final(self)@ == old(self)@,
            block < old(self)@.slots.len() && old(self)@.slots[block as int].mailbox.queue.len()
                > 0 ==> message == Some(old(self)@.slots[block as int].mailbox.queue.first())
                && final(self)@ == old(self)@.with_slot(
                block as int,
                SlotView {
                    mailbox: MailboxView {
                        queue: old(self)@.slots[block as int].mailbox.queue.drop_first(),
                        ..old(self)@.slots[block as int].mailbox
                    },
                    ..old(self)@.slots[block as int]
                },
            ),
    {
        if block >= self.slots.len() {
            return None;
        }
        if self.slots[block].mailbox.len() == 0 {
            return None;
        }
        let slot = self.slot(block);
        slot.mailbox.receive()
    }

    /// Notes how an invocation of `work` of `block` came back: with an error
    /// of the kernel (`None`), or with what the kernel reported. A failed
    /// kernel fails the block, and the error of the run comes back; a
    /// finished block is over and its mail is let go.
    pub fn worked(&mut self, block: usize, outcome: Option<WorkIo>) -> (done: Result<
        (),
        RunError,
    >)
        requires
            block < old(self)@.slots.len(),
            old(self)@.slots[block as int].phase is Runnable,
        ensures
            final(self)@ == old(self)@.with_slot(
                block as int,
                SchedulerView::after_work(old(self)@.slots[block as int], outcome),
            ),
            done == (if outcome is None {
                Err::<(), RunError>(RunError { block, stage: Stage::Work })
            } else {
                Ok::<(), RunError>(())
            }),
    {
        match outcome {
            None => {
                let slot = self.slot(block);
                slot.phase = Phase::Failed { stage: Stage::Work };
                Err(RunError { block, stage: Stage::Work })
            },
            Some(io) => {
                if io.finished {
                    let capacity = self.slots[block].mailbox.capacity;
                    let slot = self.slot(block);
                    slot.phase = Phase::Finished;
                    slot.mailbox = Mailbox::new(capacity);
                } else {
                    assert(old(self)@.slots.update(block as int, old(self)@.slots[block as int])
                        =~= old(self)@.slots);
                }
                Ok(())
            },
        }
    }

    /// Whether the graph is over: every block is finished or has failed.
    pub fn terminated(&self) -> (over: bool)
        ensures
            over == self@.terminated(),
    {
        let mut i: usize = 0;
        while i < self.slots.len()
            invariant
                i <= self@.slots.len(),
                forall|j: int| 0 <= j < i ==> (#[trigger] self@.slots[j]).over(),
            decreases self@.slots.len() - i,
        {
            match self.slots[i].phase {
                Phase::Finished => {},
                Phase::Failed { stage } => {},
                _ => {
                    assert(!self@.slots[i as int].over());
                    return false;
                },
            }
            i = i + 1;
        }
        true
    }

    /// The error of the run: the failed block of least identity with the step
    /// in which it failed, or none where no block has failed.
    pub fn failure(&self) -> (error: Option<RunError>)
        ensures
            error is Some ==> self@.is_first_failure(error->0.block as int)
                && self@.slots[error->0.block as int].phase == (Phase::Failed {
                stage: error->0.stage,
            }),
            error is None ==> forall|j: int|
                0 <= j < self@.slots.len() ==> !((#[trigger] self@.slots[j]).phase is Failed),
    {
        let mut i: usize = 0;
        while i < self.slots.len()
            invariant
                i <= self@.slots.len(),
                forall|j: int| 0 <= j < i ==> !((#[trigger] self@.slots[j]).phase is Failed),
            decreases self@.slots.len() - i,
        {
            match self.slots[i].phase {
                Phase::Failed { stage } => {
                    return Some(RunError { block: i, stage });
                },
                _ => {},
            }
            i = i + 1;
        }
        None
    }
}

/// A graph that is over has no block left to run, and a block that is over is
/// never the next to run.
pub proof fn lemma_over_is_not_eligible(s: SchedulerView, block: int)
    requires
        0 <= block < s.slots.len(),
    ensures
        s.slots[block].over() ==> !s.slots[block].eligible() && !s.is_next(block),
        s.terminated() ==> !s.is_next(block),
{
    if s.terminated() {
        assert(s.slots[block].over());
    }
}

/// A block that is over stays over, whatever is sent to whom.
pub proof fn lemma_send_keeps_over(s: SchedulerView, to: usize, message: AsyncMessage, block: int)
    requires
        0 <= block < s.slots.len(),
        s.slots[block].over(),
    ensures
        s.sent(to, message).slots.len() == s.slots.len(),
        s.sent(to, message).slots[block] == s.slots[block],
{
}

} // verus!
