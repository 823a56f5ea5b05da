//! Verified core of a streaming dataflow engine: a graph of blocks whose
//! kernels pass items to one another through connections.
//!
//! A connection is one of four kinds. The host-to-device and device-to-host
//! handoffs and the chunk pool move fixed-capacity chunks between two pools,
//! one of empty chunks on their way to the producer and one of full chunks on
//! their way to the consumer; the ring is one allocation that the writer
//! fills behind the reader. For each kind the library proves that no item is
//! lost or made up over any run of operations, and for the chunk kinds that no
//! chunk is ever in two places.
//!
//! Around the connections stand the accelerator stages, which decide what
//! goes on a device and where it goes afterwards, the registry of blocks and
//! connections, and the decisions of the scheduler.
//!
//! Everything here is sequential and deterministic. Locks, channels, tasks and
//! the accelerator itself belong to the program around the library, which
//! calls one operation at a time and delivers the messages that the
//! operations hand back.

pub mod block;
pub mod buffer;
pub mod chunk;
pub mod circular;
pub mod d2h;
pub mod d2h_protocol;
pub mod device;
pub mod dispatch;
pub mod flowgraph;
pub mod h2d;
pub mod h2d_protocol;
pub mod ids;
pub mod lane;
pub mod message;
pub mod pools;
pub mod scheduler;
pub mod slab;
pub mod slab_protocol;
pub mod topology;
pub mod vulkan;
pub mod wgpu_wasm;
