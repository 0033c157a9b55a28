//! Per-connection decisions of the audio session runner.
//!
//! The runtime owns the network connection, the demuxer/decoder, and the
//! output sink; it reduces what they report to the plain events below and
//! asks these functions what to do next. Everything that decides —
//! control handling, reconnect policy, spec-change detection, decode
//! outcome classification, chunking — is here, verified.

use vstd::prelude::*;
use vstd::string::StringExecFns;

use crate::player::Control;
use crate::station::Station;
use crate::viz::VizState;

verus! {

/// What a connection reports to the outer session loop when it ends.
#[derive(Clone, Copy, Debug, PartialEq, Eq, Structural)]
pub enum RunOutcome {
    /// A stop was requested: the session is over.
    Stop,
    /// The connection failed mid-stream: reconnect (flipping to the
    /// fallback URL when one exists).
    Reconnect,
}

/// What the demuxer reported for one read, reduced to plain values.
#[derive(Clone, Copy, Debug, PartialEq, Eq, Structural)]
pub enum ReadEvent {
    /// A packet arrived, tagged with its track id.
    Packet { track_id: u32 },
    /// The container signalled that the decoder must be rebuilt.
    ResetRequired,
    /// Any other container read error.
    Fatal,
}

/// What to do with one read.
#[derive(Clone, Copy, Debug, PartialEq, Eq, Structural)]
pub enum ReadStep {
    /// The packet belongs to the selected track: decode it.
    DecodePacket,
    /// The packet belongs to another track: drop it, keep the connection.
    SkipPacket,
    /// Reselect the track, rebuild the decoder, keep the connection.
    RebuildDecoder,
    /// Abort this connection and reconnect.
    Reconnect,
}

/// What the decoder reported for one packet, reduced to plain values.
#[derive(Clone, Copy, Debug, PartialEq, Eq, Structural)]
pub enum DecodeEvent {
    /// A decoded frame with its negotiated format.
    Frame { channels: u16, sample_rate: u32 },
    /// A recoverable decode error: skip the packet.
    Recoverable,
    /// The decoder asked to be rebuilt.
    ResetRequired,
    /// Any other decode error.
    Fatal,
}

/// What to do with one decode outcome.
#[derive(Clone, Copy, Debug, PartialEq, Eq, Structural)]
pub enum DecodeStep {
    /// Skip this packet, keep the connection.
    Skip,
    /// Reselect the track, rebuild the decoder, keep the connection.
    RebuildDecoder,
    /// Abort this connection and reconnect.
    Reconnect,
    /// The negotiated format changed: recreate the output sink; no audio
    /// is delivered for this packet.
    SpecChanged,
    /// The frame is good: analyze and deliver its samples.
    DeliverAudio,
}

/// What the runtime must do to the output sink after a control command.
#[derive(Clone, Copy, Debug, PartialEq, Eq, Structural)]
pub enum ControlAct {
    /// Stop the sink and terminate the session.
    HaltSink,
    /// Pause the sink.
    PauseSink,
    /// Resume the sink.
    ResumeSink,
    /// Nothing to do at the sink.
    Nothing,
}

/// Mutable per-connection state: the selected track, the negotiated
/// format, and the pause/visualization flags.
#[derive(Clone, Copy, Debug, PartialEq, Eq, Structural)]
pub struct Connection {
    pub track_id: u32,
    /// Whether a format has been negotiated since the last (re)build.
    pub dec_init: bool,
    pub channels: u16,
    pub sample_rate: u32,
    pub paused: bool,
    pub bars_enabled: bool,
}

pub fn new_connection(track_id: u32) -> (c: Connection)
    ensures
        c == (Connection {
            track_id,
            dec_init: false,
            channels: 0,
            sample_rate: 0,
            paused: false,
            bars_enabled: true,
        }),
{
    Connection {
        track_id,
        dec_init: false,
        channels: 0,
        sample_rate: 0,
        paused: false,
        bars_enabled: true,
    }
}

/// Record the track selected after an open or a decoder rebuild.
pub fn set_track(conn: &mut Connection, track_id: u32)
    ensures
        *final(conn) == (Connection { track_id, ..*old(conn) }),
{
    conn.track_id = track_id;
}

/// Apply one drained control command.
///
/// Stop halts the sink at once and ends the session. Pause pauses the
/// sink (when not already paused), disables publishing, and zeroes the
/// shared spectrum buffer immediately, so no stale bars linger while
/// paused. Resume is only meaningful while paused: it resumes the sink
/// and re-enables publishing.
pub fn on_control(conn: &mut Connection, viz: &mut VizState, cmd: Control) -> (act: ControlAct)
    requires
        old(viz).wf(),
    ensures
        final(viz).wf(),
        match cmd {
            Control::Stop => {
                &&& act == ControlAct::HaltSink
                &&& *final(conn) == *old(conn)
                &&& *final(viz) == *old(viz)
            },
            Control::Pause => {
                &&& act == (if old(conn).paused {
                    ControlAct::Nothing
                } else {
                    ControlAct::PauseSink
                })
                &&& *final(conn) == (Connection {
                    paused: true,
                    bars_enabled: false,
                    ..*old(conn)
                })
                &&& final(viz)@.ring == old(viz)@.ring
                &&& final(viz)@.bars_smooth == old(viz)@.bars_smooth
                &&& final(viz)@.bar_peak == old(viz)@.bar_peak
                &&& final(viz)@.published.len() == crate::N_BARS
                &&& forall|i: int|
                    0 <= i < crate::N_BARS ==> #[trigger] final(viz)@.published[i] == 0
            },
            Control::Resume => {
                &&& act == (if old(conn).paused {
                    ControlAct::ResumeSink
                } else {
                    ControlAct::Nothing
                })
                &&& *final(conn) == (if old(conn).paused {
                    Connection { paused: false, bars_enabled: true, ..*old(conn) }
                } else {
                    *old(conn)
                })
                &&& *final(viz) == *old(viz)
            },
        },
{
    match cmd {
        Control::Stop => ControlAct::HaltSink,
        Control::Pause => {
            let was_paused: bool = conn.paused;
            conn.paused = true;
            conn.bars_enabled = false;
            viz.clear_published();
            if was_paused {
                ControlAct::Nothing
            } else {
                ControlAct::PauseSink
            }
        },
        Control::Resume => {
            if conn.paused {
                conn.paused = false;
                conn.bars_enabled = true;
                ControlAct::ResumeSink
            } else {
                ControlAct::Nothing
            }
        },
    }
}

/// Classify one demuxer read. A container reset keeps the connection but
/// rebuilds the decoder and resets the analyzer; any other read error
/// aborts the connection toward a reconnect.
pub fn on_read_event(conn: &mut Connection, viz: &mut VizState, ev: ReadEvent) -> (step: ReadStep)
    requires
        old(viz).wf(),
    ensures
        final(viz).wf(),
        match ev {
            ReadEvent::Packet { track_id } => {
                &&& step == (if track_id == old(conn).track_id {
                    ReadStep::DecodePacket
                } else {
                    ReadStep::SkipPacket
                })
                &&& *final(conn) == *old(conn)
                &&& *final(viz) == *old(viz)
            },
            ReadEvent::ResetRequired => {
                &&& step == ReadStep::RebuildDecoder
                &&& *final(conn) == (Connection { dec_init: false, ..*old(conn) })
                &&& final(viz).is_zeroed()
            },
            ReadEvent::Fatal => {
                &&& step == ReadStep::Reconnect
                &&& *final(conn) == *old(conn)
                &&& *final(viz) == *old(viz)
            },
        },
{
    match ev {
        ReadEvent::Packet { track_id } => {
            if track_id == conn.track_id {
                ReadStep::DecodePacket
            } else {
                ReadStep::SkipPacket
            }
        },
        ReadEvent::ResetRequired => {
            conn.dec_init = false;
            viz.reset();
            ReadStep::RebuildDecoder
        },
        ReadEvent::Fatal => ReadStep::Reconnect,
    }
}

/// Classify one decode outcome. The first decoded frame fixes the
/// negotiated format; a later frame with a different channel count or
/// sample rate is a spec change: the format is re-stored, the analyzer is
/// reset, and no audio is delivered for the triggering packet.
pub fn on_decode_event(conn: &mut Connection, viz: &mut VizState, ev: DecodeEvent) -> (step:
    DecodeStep)
    requires
        old(viz).wf(),
    ensures
        final(viz).wf(),
        match ev {
            DecodeEvent::Frame { channels, sample_rate } => {
                let first = !old(conn).dec_init;
                let changed = old(conn).dec_init && (channels != old(conn).channels
                    || sample_rate != old(conn).sample_rate);
                &&& step == (if changed {
                    DecodeStep::SpecChanged
                } else {
                    DecodeStep::DeliverAudio
                })
                &&& *final(conn) == (Connection {
                    dec_init: true,
                    channels,
                    sample_rate,
                    ..*old(conn)
                })
                &&& (changed ==> final(viz).is_zeroed())
                &&& (!changed ==> *final(viz) == *old(viz))
            },
            DecodeEvent::Recoverable => {
                &&& step == DecodeStep::Skip
                &&& *final(conn) == *old(conn)
                &&& *final(viz) == *old(viz)
            },
            DecodeEvent::ResetRequired => {
                &&& step == DecodeStep::RebuildDecoder
                &&& *final(conn) == (Connection { dec_init: false, ..*old(conn) })
                &&& final(viz).is_zeroed()
            },
            DecodeEvent::Fatal => {
                &&& step == DecodeStep::Reconnect
                &&& *final(conn) == *old(conn)
                &&& *final(viz) == *old(viz)
            },
        },
{
    match ev {
        DecodeEvent::Frame { channels, sample_rate } => {
            let changed: bool = conn.dec_init && (channels != conn.channels || sample_rate
                != conn.sample_rate);
            conn.dec_init = true;
            conn.channels = channels;
            conn.sample_rate = sample_rate;
            if changed {
                viz.reset();
                DecodeStep::SpecChanged
            } else {
                DecodeStep::DeliverAudio
            }
        },
        DecodeEvent::Recoverable => DecodeStep::Skip,
        DecodeEvent::ResetRequired => {
            conn.dec_init = false;
            viz.reset();
            DecodeStep::RebuildDecoder
        },
        DecodeEvent::Fatal => DecodeStep::Reconnect,
    }
}

/// Which URL to use for an attempt.
pub fn pick_url(station: &Station, use_fallback: bool) -> (r: &'static str)
    ensures
        r@ == if use_fallback {
            station.spec_fallback_url()
        } else {
            station.spec_stream_url()
        },
{
    if use_fallback {
        station.stream_fallback_url()
    } else {
        station.stream_url()
    }
}

/// After an open/probe failure: retry once on the fallback when the
/// failure was on the primary and a fallback exists; otherwise the
/// failure is fatal for this session.
pub open spec fn spec_on_open_failure(use_fallback: bool, has_fallback: bool) -> Option<bool> {
    if !use_fallback && has_fallback {
        Some(true)
    } else {
        None
    }
}

/// After a mid-stream failure: flip between primary and fallback when a
/// fallback exists, else retry the same URL.
pub open spec fn spec_on_reconnect(use_fallback: bool, has_fallback: bool) -> bool {
    if has_fallback {
        !use_fallback
    } else {
        use_fallback
    }
}

/// See [`spec_on_open_failure`]: `Some(next)` asks for another attempt
/// with that fallback flag; `None` surfaces the failure to the caller.
pub fn on_open_failure(use_fallback: bool, has_fallback: bool) -> (r: Option<bool>)
    ensures
        r == spec_on_open_failure(use_fallback, has_fallback),
{
    if !use_fallback && has_fallback {
        Some(true)
    } else {
        None
    }
}

/// See [`spec_on_reconnect`].
pub fn on_reconnect(use_fallback: bool, has_fallback: bool) -> (r: bool)
    ensures
        r == spec_on_reconnect(use_fallback, has_fallback),
{
    if has_fallback {
        !use_fallback
    } else {
        use_fallback
    }
}

/// The fallback flag after `n` mid-stream reconnects, starting on the
/// primary URL.
pub open spec fn spec_after_reconnects(n: nat, has_fallback: bool) -> bool
    decreases n,
{
    if n == 0 {
        false
    } else {
        spec_on_reconnect(spec_after_reconnects((n - 1) as nat, has_fallback), has_fallback)
    }
}

/// The reconnect policy: a session starts on the primary URL; when the
/// primary fails to open and a fallback exists, the second attempt uses
/// the fallback; with no fallback, an open failure is fatal and every
/// mid-stream reconnect reuses the primary URL.
pub proof fn lemma_reconnect_policy(n: nat)
    ensures
        !spec_after_reconnects(0, true) && !spec_after_reconnects(0, false),
        spec_on_open_failure(false, true) == Some(true),
        spec_on_open_failure(false, false) is None,
        spec_after_reconnects(1, true),
        !spec_after_reconnects(n, false),
    decreases n,
{
    assert(!spec_after_reconnects(0, true));
    assert(spec_after_reconnects(1, true));
    if n > 0 {
        lemma_reconnect_policy((n - 1) as nat);
    }
}

/// Target duration of one sink chunk, in milliseconds.
pub const CHUNK_MS: u32 = 10;

/// Samples per chunk for a format: about [`CHUNK_MS`] of audio, at least
/// one frame.
pub open spec fn spec_chunk_len(channels: int, sample_rate: int) -> int {
    let frames = sample_rate * CHUNK_MS / 1000;
    (if frames < 1 {
        1int
    } else {
        frames
    }) * channels
}

pub fn chunk_len(channels: u16, sample_rate: u32) -> (r: usize)
    requires
        channels >= 1,
        sample_rate * CHUNK_MS <= u32::MAX,
        spec_chunk_len(channels as int, sample_rate as int) <= usize::MAX,
    ensures
        r == spec_chunk_len(channels as int, sample_rate as int),
        r >= 1,
{
    let frames: u32 = sample_rate * CHUNK_MS / 1000;
    let frames: u32 = if frames < 1 {
        1
    } else {
        frames
    };
    proof {
        assert(frames * channels >= 1) by (nonlinear_arith)
            requires
                frames >= 1,
                channels >= 1,
        ;
    }
    (frames as usize) * (channels as usize)
}

/// Split `total` samples into consecutive chunks of at most `chunk`
/// samples each: chunk `i` covers `[i * chunk, min((i + 1) * chunk, total))`,
/// and together the chunks cover `[0, total)` exactly.
pub fn chunk_bounds(total: usize, chunk: usize) -> (r: Vec<(usize, usize)>)
    requires
        chunk >= 1,
    ensures
        total <= r@.len() * chunk,
        total == 0 ==> r@.len() == 0,
        total > 0 ==> (r@.len() - 1) * chunk < total,
        forall|i: int|
            0 <= i < r@.len() ==> #[trigger] r@[i].0 == i * chunk,
        forall|i: int|
            0 <= i < r@.len() ==> #[trigger] r@[i].1 == (if (i + 1) * chunk < total {
                (i + 1) * chunk
            } else {
                total as int
            }),
{
    let mut r: Vec<(usize, usize)> = Vec::new();
    let mut start: usize = 0;
    proof {
        assert(r@.len() * chunk == 0) by (nonlinear_arith)
            requires
                r@.len() == 0,
        ;
    }
    while start < total
        invariant
            chunk >= 1,
            start <= total,
            start < total ==> r@.len() * chunk == start,
            start == total ==> total <= r@.len() * chunk,
            start == total && total > 0 ==> (r@.len() - 1) * chunk < total,
            total == 0 ==> r@.len() == 0,
            forall|i: int|
                0 <= i < r@.len() ==> #[trigger] r@[i].0 == i * chunk,
            forall|i: int|
                0 <= i < r@.len() ==> #[trigger] r@[i].1 == (if (i + 1) * chunk < total {
                    (i + 1) * chunk
                } else {
                    total as int
                }),
        decreases total - start,
    {
        let end: usize = if total - start > chunk {
            start + chunk
        } else {
            total
        };
        proof {
            let k = r@.len() as int;
            assert(k * chunk == start);
            assert((k + 1) * chunk == start + chunk) by (nonlinear_arith)
                requires
                    k * chunk == start,
            ;
        }
        r.push((start, end));
        start = end;
    }
    r
}

/// The application's name, as sent in the user-agent header.
pub fn app_name() -> (r: &'static str)
    ensures
        r@ == "listenmoe"@,
{
    "listenmoe"
}

/// The application's version, as sent in the user-agent header.
pub fn app_version() -> (r: &'static str)
    ensures
        r@ == "0.1.0"@,
{
    "0.1.0"
}

/// The deterministic user-agent string: `<app>-v<version>-<platform>`.
pub fn build_useragent(platform: &str) -> (r: String)
    ensures
        r@ == "listenmoe"@ + "-v"@ + "0.1.0"@ + "-"@ + platform@,
{
    let mut s: String = String::from_str(app_name());
    s.append("-v");
    s.append(app_version());
    s.append("-");
    s.append(platform);
    s
}

/// Whether an HTTP status code counts as success (2xx).
pub fn is_success_status(code: u16) -> (r: bool)
    ensures
        r == (200 <= code && code < 300),
{
    200 <= code && code < 300
}

} // verus!
