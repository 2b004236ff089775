//! Typed events between cooperating processes over byte-stream pipes, and the
//! coordinator that drives an encrypted messaging group from those events.
//!
//! The transport half frames opaque payloads with a four-byte big-endian length
//! and reassembles frames out of arbitrarily split reads. The event half maps
//! four families of structured events to payloads under a fixed table of
//! discriminants. The coordinator routes incoming events into group operations
//! and answers with outbound events.

pub mod bytes;
pub mod frame;
pub mod reader;
pub mod wire;
pub mod events;
pub mod engine;
pub mod coordinator;
pub mod poll;
