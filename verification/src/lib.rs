//! Client-side library of a distributed dataflow runtime.
//!
//! A node process uses this crate to reach its local daemon over a
//! length-framed request/reply channel, to receive input events, and to
//! publish outputs — inline for small payloads, through named
//! shared-memory regions above a size threshold, with region reuse tied
//! to drop tokens returned by the daemon.

pub mod config;
pub mod error;
pub mod message;
pub mod codec;
pub mod wire;
pub mod clock;
pub mod framing;
pub mod channel;
pub mod event;
pub mod streams;
pub mod sample;
pub mod node;
pub mod arrow_data;
