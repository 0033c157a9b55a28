//! Core of a continuously-reconnecting network audio player with live
//! spectral visualization, plus a companion metadata-gateway client.
//!
//! The crate holds the verified logic: the stream-controller and
//! metadata-controller state machines, the per-connection decode and
//! control decisions, the primary/fallback reconnect policy, the
//! fixed-point spectrum-bar pipeline, and the gateway's JSON protocol.
//! The surrounding runtime (HTTP, decoding, audio output, WebSocket)
//! performs the actions these functions decide on and feeds their
//! results back in as plain values.

pub mod color;
pub mod controls;
pub mod gateway;
pub mod json;
pub mod meta;
pub mod player;
pub mod station;
pub mod stream;
pub mod viz;

use vstd::prelude::*;

verus! {

/// Number of spectrum bars published to the shared buffer.
pub const N_BARS: usize = 48;

} // verus!
