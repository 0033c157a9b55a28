//! The stream controller: the public-facing state machine that owns one
//! audio worker per playing session.
//!
//! The controller itself is pure state: it decides the transition and
//! reports the effect the runtime must carry out (spawn a worker, send a
//! command on the worker's channel). A worker exists exactly while the
//! state is `Playing` or `Paused`, so "is a worker alive" is read off the
//! state instead of being inferred from channel-send success.

use vstd::prelude::*;

use crate::station::Station;

verus! {

/// One-shot commands sent from the controller to a running session.
#[derive(Clone, Copy, Debug, PartialEq, Eq, Structural)]
pub enum Control {
    Stop,
    Pause,
    Resume,
}

/// The controller's session state. A worker thread exists exactly in the
/// non-`Stopped` states; its command channel is held by the runtime.
#[derive(Clone, Copy, Debug, PartialEq, Eq, Structural)]
pub enum SessionState {
    Stopped,
    Paused,
    Playing,
}

/// What the runtime must do after a `start` call.
#[derive(Clone, Copy, Debug, PartialEq, Eq, Structural)]
pub enum StartEffect {
    /// Already playing: nothing to do.
    AlreadyPlaying,
    /// A paused worker exists: send `Control::Resume` on its channel.
    SendResume,
    /// No worker exists: create a channel and spawn one worker.
    SpawnWorker,
}

/// What the runtime must do after a `set_station` call.
#[derive(Clone, Copy, Debug, PartialEq, Eq, Structural)]
pub enum SetStationEffect {
    /// The controller was stopped: only the station changed.
    StationOnly,
    /// A worker existed: send `Control::Stop` on the old channel, then
    /// create a fresh channel and spawn one new worker.
    Restart,
}

/// Spec-level image of a [`Listen`] controller.
pub struct ListenV {
    pub station: Station,
    pub state: SessionState,
    pub lag_ms: u64,
    pub pause_started: Option<u64>,
    pub spectrum: Seq<u32>,
}

/// The stream controller.
#[derive(Debug)]
pub struct Listen {
    station: Station,
    state: SessionState,
    lag_ms: u64,
    pause_started: Option<u64>,
    spectrum: Vec<u32>,
}

/// `stop`: always ends `Stopped`; a command is sent only when a worker
/// existed, so a second `stop` never sends on a closed channel.
pub open spec fn spec_stop(v: ListenV) -> (ListenV, bool) {
    (
        ListenV { state: SessionState::Stopped, ..v },
        v.state != SessionState::Stopped,
    )
}

/// `start` at time `now_ms`: resume a paused worker (crediting the time
/// spent paused to the lag counter), spawn a worker when stopped, and do
/// nothing when already playing.
pub open spec fn spec_start(v: ListenV, now_ms: u64) -> (ListenV, StartEffect) {
    match v.state {
        SessionState::Playing => (v, StartEffect::AlreadyPlaying),
        SessionState::Paused => {
            let lag = match v.pause_started {
                Some(t) => vstd::wrapping::u64_specs::wrapping_add(
                    v.lag_ms,
                    (now_ms - t) as u64,
                ),
                None => v.lag_ms,
            };
            (
                ListenV {
                    state: SessionState::Playing,
                    lag_ms: lag,
                    pause_started: None,
                    ..v
                },
                StartEffect::SendResume,
            )
        },
        SessionState::Stopped => (
            ListenV { state: SessionState::Playing, ..v },
            StartEffect::SpawnWorker,
        ),
    }
}

/// `pause` at time `now_ms`: only meaningful from `Playing`; the pause
/// start time is recorded unconditionally, as a later `start` from
/// `Paused` is what turns it into lag.
pub open spec fn spec_pause(v: ListenV, now_ms: u64) -> (ListenV, bool) {
    if v.state == SessionState::Playing {
        (
            ListenV {
                state: SessionState::Paused,
                pause_started: Some(now_ms),
                ..v
            },
            true,
        )
    } else {
        (ListenV { pause_started: Some(now_ms), ..v }, false)
    }
}

/// `set_station`: when a worker exists it is stopped and a fresh one is
/// spawned for the new station; when stopped, only the station changes.
pub open spec fn spec_set_station(v: ListenV, station: Station) -> (ListenV, SetStationEffect) {
    if v.state == SessionState::Stopped {
        (ListenV { station, ..v }, SetStationEffect::StationOnly)
    } else {
        (
            ListenV { station, state: SessionState::Playing, ..v },
            SetStationEffect::Restart,
        )
    }
}

impl View for Listen {
    type V = ListenV;

    closed spec fn view(&self) -> ListenV {
        ListenV {
            station: self.station,
            state: self.state,
            lag_ms: self.lag_ms,
            pause_started: self.pause_started,
            spectrum: self.spectrum@,
        }
    }
}

impl Listen {
    /// A controller always holds one cell per spectrum bar.
    pub open spec fn wf(&self) -> bool {
        self@.spectrum.len() == crate::N_BARS
    }

    /// A fresh controller: stopped, no lag, all bars zero.
    pub fn new(station: Station) -> (r: Listen)
        ensures
            r.wf(),
            r@.station == station,
            r@.state == SessionState::Stopped,
            r@.lag_ms == 0,
            r@.pause_started is None,
            r@.spectrum == Seq::new(crate::N_BARS as nat, |i: int| 0u32),
    {
        let mut spectrum: Vec<u32> = Vec::new();
        let mut i: usize = 0;
        while i < crate::N_BARS
            invariant
                i <= crate::N_BARS,
                spectrum@ == Seq::new(i as nat, |k: int| 0u32),
            decreases crate::N_BARS - i,
        {
            spectrum.push(0);
            i = i + 1;
            proof {
                assert(spectrum@ =~= Seq::new(i as nat, |k: int| 0u32));
            }
        }
        Listen {
            station,
            state: SessionState::Stopped,
            lag_ms: 0,
            pause_started: None,
            spectrum,
        }
    }

    /// The controller's handle on the shared spectrum buffer: one value in
    /// `[0, BAR_SCALE]` per bar. The playing worker publishes into the
    /// live copy the runtime mirrors from this.
    pub fn spectrum_bars(&self) -> (r: &Vec<u32>)
        ensures
            r@ == self@.spectrum,
    {
        &self.spectrum
    }

    /// Cumulative milliseconds spent paused, written on resume.
    pub fn lag_ms(&self) -> (r: u64)
        ensures
            r == self@.lag_ms,
    {
        self.lag_ms
    }

    pub fn get_station(&self) -> (r: Station)
        ensures
            r == self@.station,
    {
        self.station
    }

    /// Swap stations; an active session is torn down and recreated.
    pub fn set_station(&mut self, station: Station) -> (eff: SetStationEffect)
        requires
            old(self).wf(),
        ensures
            final(self).wf(),
            (final(self)@, eff) == spec_set_station(old(self)@, station),
    {
        self.station = station;
        if self.state == SessionState::Stopped {
            SetStationEffect::StationOnly
        } else {
            self.state = SessionState::Playing;
            SetStationEffect::Restart
        }
    }

    /// Start (or resume) playback; `now_ms` is the current monotonic time.
    pub fn start(&mut self, now_ms: u64) -> (eff: StartEffect)
        requires
            old(self).wf(),
            old(self)@.pause_started matches Some(t) ==> t <= now_ms,
        ensures
            final(self).wf(),
            (final(self)@, eff) == spec_start(old(self)@, now_ms),
    {
        match self.state {
            SessionState::Playing => StartEffect::AlreadyPlaying,
            SessionState::Paused => {
                match self.pause_started {
                    Some(t) => {
                        self.lag_ms = self.lag_ms.wrapping_add(now_ms - t);
                    },
                    None => {},
                }
                self.pause_started = None;
                self.state = SessionState::Playing;
                StartEffect::SendResume
            },
            SessionState::Stopped => {
                self.state = SessionState::Playing;
                StartEffect::SpawnWorker
            },
        }
    }

    /// Pause playback; `now_ms` is the current monotonic time. Returns
    /// whether `Control::Pause` must be sent to the worker.
    pub fn pause(&mut self, now_ms: u64) -> (sent: bool)
        requires
            old(self).wf(),
        ensures
            final(self).wf(),
            (final(self)@, sent) == spec_pause(old(self)@, now_ms),
    {
        let sent: bool = self.state == SessionState::Playing;
        if sent {
            self.state = SessionState::Paused;
        }
        self.pause_started = Some(now_ms);
        sent
    }

    /// Stop playback. Returns whether `Control::Stop` must be sent to the
    /// worker; the transition to `Stopped` is unconditional.
    pub fn stop(&mut self) -> (sent: bool)
        requires
            old(self).wf(),
        ensures
            final(self).wf(),
            (final(self)@, sent) == spec_stop(old(self)@),
    {
        let sent: bool = self.state != SessionState::Stopped;
        self.state = SessionState::Stopped;
        sent
    }
}

/// Stopping is idempotent: from any state, one `stop` ends `Stopped`, and
/// a second `stop` stays `Stopped` without asking the runtime to send on
/// the (now closed) channel.
pub proof fn lemma_stop_idempotent(v: ListenV)
    ensures
        spec_stop(v).0.state == SessionState::Stopped,
        spec_stop(spec_stop(v).0).0.state == SessionState::Stopped,
        !spec_stop(spec_stop(v).0).1,
{
}

/// start → pause → start → stop from `Stopped` passes through exactly
/// Stopped, Playing, Paused, Playing, Stopped, and only the first `start`
/// spawns a worker: at most one worker thread exists at any time.
pub proof fn lemma_start_pause_resume_stop(v: ListenV, t1: u64, t2: u64, t3: u64)
    requires
        v.state == SessionState::Stopped,
    ensures
        ({
            let (v1, e1) = spec_start(v, t1);
            let (v2, e2) = spec_pause(v1, t2);
            let (v3, e3) = spec_start(v2, t3);
            let (v4, e4) = spec_stop(v3);
            &&& v1.state == SessionState::Playing && e1 == StartEffect::SpawnWorker
            &&& v2.state == SessionState::Paused && e2
            &&& v3.state == SessionState::Playing && e3 == StartEffect::SendResume
            &&& v4.state == SessionState::Stopped && e4
        }),
{
}

} // verus!
