//! The metadata gateway client's controller: one worker per running
//! session, torn down on stop or on a station change.
//!
//! Like the stream controller, this is pure state: the runtime spawns
//! the worker thread (which runs the reconnecting WebSocket session and
//! republishes track updates on its channel) and sends the stop command
//! when these functions say so.

use vstd::prelude::*;

use crate::station::Station;

verus! {

/// The gateway client's session state. A worker thread exists exactly in
/// the `Running` state; its command channel is held by the runtime.
#[derive(Clone, Copy, Debug, PartialEq, Eq, Structural)]
pub enum MetaState {
    Stopped,
    Running,
}

/// What the runtime must do after a `set_station` call.
#[derive(Clone, Copy, Debug, PartialEq, Eq, Structural)]
pub enum MetaEffect {
    /// The client was stopped: only the station changed.
    StationOnly,
    /// A worker existed: send stop on the old channel, then spawn one
    /// new worker for the new station.
    Restart,
}

/// Spec-level image of a [`Meta`] controller.
pub struct MetaV {
    pub station: Station,
    pub state: MetaState,
}

/// The metadata gateway client's controller.
#[derive(Clone, Copy, Debug)]
pub struct Meta {
    station: Station,
    state: MetaState,
}

/// `stop`: always ends `Stopped`; the stop command is sent only when a
/// worker existed.
pub open spec fn spec_meta_stop(v: MetaV) -> (MetaV, bool) {
    (MetaV { state: MetaState::Stopped, ..v }, v.state == MetaState::Running)
}

/// `start`: spawn a worker when stopped, do nothing when running.
pub open spec fn spec_meta_start(v: MetaV) -> (MetaV, bool) {
    (MetaV { state: MetaState::Running, ..v }, v.state == MetaState::Stopped)
}

/// `set_station`: a running client is stopped and restarted for the new
/// station; a stopped one only changes station.
pub open spec fn spec_meta_set_station(v: MetaV, station: Station) -> (MetaV, MetaEffect) {
    if v.state == MetaState::Running {
        (MetaV { station, state: MetaState::Running }, MetaEffect::Restart)
    } else {
        (MetaV { station, state: MetaState::Stopped }, MetaEffect::StationOnly)
    }
}

impl View for Meta {
    type V = MetaV;

    closed spec fn view(&self) -> MetaV {
        MetaV { station: self.station, state: self.state }
    }
}

impl Meta {
    /// A fresh client: stopped. The runtime owns the track-info channel
    /// the worker will publish on.
    pub fn new(station: Station) -> (r: Meta)
        ensures
            r@.station == station,
            r@.state == MetaState::Stopped,
    {
        Meta { station, state: MetaState::Stopped }
    }

    pub fn get_station(&self) -> (r: Station)
        ensures
            r == self@.station,
    {
        self.station
    }

    /// Swap stations; a running session is torn down and recreated.
    pub fn set_station(&mut self, station: Station) -> (eff: MetaEffect)
        ensures
            (final(self)@, eff) == spec_meta_set_station(old(self)@, station),
    {
        self.station = station;
        if self.state == MetaState::Running {
            MetaEffect::Restart
        } else {
            MetaEffect::StationOnly
        }
    }

    /// Start the client. Returns whether a worker must be spawned.
    pub fn start(&mut self) -> (spawn: bool)
        ensures
            (final(self)@, spawn) == spec_meta_start(old(self)@),
    {
        let spawn: bool = self.state == MetaState::Stopped;
        self.state = MetaState::Running;
        spawn
    }

    /// Stop the client. Returns whether the stop command must be sent.
    pub fn stop(&mut self) -> (sent: bool)
        ensures
            (final(self)@, sent) == spec_meta_stop(old(self)@),
    {
        let sent: bool = self.state == MetaState::Running;
        self.state = MetaState::Stopped;
        sent
    }
}

} // verus!
