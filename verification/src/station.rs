//! Stations and the URLs they resolve to.
//!
//! A station is an immutable, copyable identifier. It resolves to a
//! primary stream URL, a fallback stream URL (possibly empty), and a
//! gateway WebSocket URL.

use vstd::prelude::*;

verus! {

/// An audio-stream + metadata-gateway endpoint pairing.
#[derive(Clone, Copy, Debug, PartialEq, Eq, Structural)]
pub enum Station {
    Jpop,
    Kpop,
}

impl Station {
    /// The primary stream URL for this station.
    pub fn stream_url(&self) -> (r: &'static str)
        ensures
            r@ == self.spec_stream_url(),
    {
        match self {
            Station::Jpop => "https://listen.moe/stream",
            Station::Kpop => "https://listen.moe/kpop/stream",
        }
    }

    /// The fallback stream URL; empty when the station has none.
    pub fn stream_fallback_url(&self) -> (r: &'static str)
        ensures
            r@ == self.spec_fallback_url(),
    {
        match self {
            Station::Jpop => "https://listen.moe/fallback",
            Station::Kpop => "https://listen.moe/kpop/fallback",
        }
    }

    /// The gateway WebSocket URL for this station.
    pub fn ws_url(&self) -> (r: &'static str)
        ensures
            r@ == self.spec_ws_url(),
    {
        match self {
            Station::Jpop => "wss://listen.moe/gateway_v2",
            Station::Kpop => "wss://listen.moe/kpop/gateway_v2",
        }
    }

    /// The other station: what a "switch station" action flips to.
    pub fn other(&self) -> (r: Station)
        ensures
            self is Jpop ==> r is Kpop,
            self is Kpop ==> r is Jpop,
    {
        match self {
            Station::Jpop => Station::Kpop,
            Station::Kpop => Station::Jpop,
        }
    }

    pub open spec fn spec_stream_url(&self) -> Seq<char> {
        match self {
            Station::Jpop => "https://listen.moe/stream"@,
            Station::Kpop => "https://listen.moe/kpop/stream"@,
        }
    }

    pub open spec fn spec_fallback_url(&self) -> Seq<char> {
        match self {
            Station::Jpop => "https://listen.moe/fallback"@,
            Station::Kpop => "https://listen.moe/kpop/fallback"@,
        }
    }

    pub open spec fn spec_ws_url(&self) -> Seq<char> {
        match self {
            Station::Jpop => "wss://listen.moe/gateway_v2"@,
            Station::Kpop => "wss://listen.moe/kpop/gateway_v2"@,
        }
    }
}

} // verus!
