//! Control messages that the two ends of a connection, and the outside world,
//! address to a block. The library decides which message is due; delivering it
//! to the mailbox of the block is left to the caller.

use vstd::prelude::*;

verus! {

/// A value carried by a call to a message port.
#[derive(Debug, PartialEq, Eq)]
pub enum Pmt {
    Null,
    U32(u32),
    U64(u64),
    Blob(Vec<u8>),
}

/// A control signal for a block.
#[derive(Debug, PartialEq, Eq)]
pub enum AsyncMessage {
    /// Data or capacity may have become available.
    Notify,
    /// The writer that feeds input `input_id` has ended its stream.
    StreamInputDone { input_id: usize },
    /// The reader that drains output `output_id` has ended.
    StreamOutputDone { output_id: usize },
    /// A value for message port `port_id` of block `block_id`.
    BlockCall { block_id: usize, port_id: usize, data: Pmt },
    /// As `BlockCall`, with an answer expected.
    BlockCallback { block_id: usize, port_id: usize, data: Pmt },
}

} // verus!
