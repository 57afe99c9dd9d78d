//! Deterministic derivation of L2 execution-payload attributes from data
//! published on L1.
//!
//! The crate reconstructs the canonical sequence of L2 payload attributes
//! purely from L1 block data: raw data-availability bytes are decoded into
//! frames, frames are reassembled into channels, completed channels are
//! decompressed into batch streams, batches are validated against the L2
//! safe head, and each accepted batch is turned into one attributes value.
//! All fetching of L1 blocks, data-availability inputs and deposit
//! transactions happens outside the crate: the pipeline is a state machine
//! that names the fetch it needs and consumes the answer as an event.

pub mod batch;
pub mod builder;
pub mod channel;
pub mod frame;
pub mod metrics;
pub mod pipeline;
pub mod reader;
pub mod types;
