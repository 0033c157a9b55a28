//! Per-connection session decisions: control handling, reconnect policy,
//! decode classification, chunking, and the user-agent string.

use listenmoe::player::Control;
use listenmoe::station::Station;
use listenmoe::stream::{
    build_useragent, chunk_bounds, chunk_len, is_success_status, new_connection,
    on_control, on_decode_event, on_open_failure, on_read_event, on_reconnect, pick_url,
    set_track, ControlAct, DecodeEvent, DecodeStep, ReadEvent, ReadStep,
};
use listenmoe::viz::VizState;

#[test]
fn reconnect_policy_uses_fallback_on_second_attempt() {
    // A failing primary with a configured fallback: the retry flips to
    // the fallback URL.
    assert_eq!(on_open_failure(false, true), Some(true));
    let s = Station::Jpop;
    assert_eq!(pick_url(&s, false), "https://listen.moe/stream");
    assert_eq!(pick_url(&s, true), "https://listen.moe/fallback");
}

#[test]
fn reconnect_policy_without_fallback_stays_on_primary() {
    // No fallback: an open failure is fatal, and mid-stream reconnects
    // keep using the primary URL.
    assert_eq!(on_open_failure(false, false), None);
    let mut use_fallback = false;
    for _ in 0..5 {
        use_fallback = on_reconnect(use_fallback, false);
        assert!(!use_fallback);
    }
}

#[test]
fn reconnect_policy_alternates_with_fallback() {
    assert!(on_reconnect(false, true));
    assert!(!on_reconnect(true, true));
    // A failure on the fallback itself is fatal.
    assert_eq!(on_open_failure(true, true), None);
}

#[test]
fn pause_clears_published_bars_and_resume_reenables() {
    let mut conn = new_connection(1);
    let mut viz = VizState::new();
    // Feed one frame so something is published.
    let mags = vec![1000u32; 512];
    let raw: Vec<(usize, usize)> = (0..48).map(|i| (i, i + 2)).collect();
    let bars = listenmoe::viz::bins_to_bars(&mags, &raw);
    viz.apply_bars(&bars, true);
    assert!(viz.published().iter().any(|&v| v > 0));

    // Pause: the sink pauses and the shared bars are zeroed at once.
    assert_eq!(on_control(&mut conn, &mut viz, Control::Pause), ControlAct::PauseSink);
    assert!(viz.published().iter().all(|&v| v == 0));
    assert!(conn.paused);
    assert!(!conn.bars_enabled);

    // A second pause does not touch the sink again.
    assert_eq!(on_control(&mut conn, &mut viz, Control::Pause), ControlAct::Nothing);

    // Resume re-enables publishing; the next processed frame publishes
    // nonzero bars again.
    assert_eq!(on_control(&mut conn, &mut viz, Control::Resume), ControlAct::ResumeSink);
    assert!(conn.bars_enabled);
    let bars2 = listenmoe::viz::bins_to_bars(&mags, &raw);
    viz.apply_bars(&bars2, conn.bars_enabled);
    assert!(viz.published().iter().any(|&v| v > 0));
}

#[test]
fn resume_while_not_paused_does_nothing() {
    let mut conn = new_connection(0);
    let mut viz = VizState::new();
    assert_eq!(on_control(&mut conn, &mut viz, Control::Resume), ControlAct::Nothing);
    assert!(!conn.paused);
}

#[test]
fn stop_halts_the_sink() {
    let mut conn = new_connection(0);
    let mut viz = VizState::new();
    assert_eq!(on_control(&mut conn, &mut viz, Control::Stop), ControlAct::HaltSink);
}

#[test]
fn packets_from_other_tracks_are_skipped() {
    let mut conn = new_connection(7);
    let mut viz = VizState::new();
    assert_eq!(
        on_read_event(&mut conn, &mut viz, ReadEvent::Packet { track_id: 7 }),
        ReadStep::DecodePacket
    );
    assert_eq!(
        on_read_event(&mut conn, &mut viz, ReadEvent::Packet { track_id: 8 }),
        ReadStep::SkipPacket
    );
    set_track(&mut conn, 8);
    assert_eq!(
        on_read_event(&mut conn, &mut viz, ReadEvent::Packet { track_id: 8 }),
        ReadStep::DecodePacket
    );
}

#[test]
fn container_reset_rebuilds_and_other_errors_reconnect() {
    let mut conn = new_connection(0);
    let mut viz = VizState::new();
    let mags = vec![500u32; 512];
    let raw: Vec<(usize, usize)> = (0..48).map(|i| (i, i + 1)).collect();
    let bars = listenmoe::viz::bins_to_bars(&mags, &raw);
    viz.apply_bars(&bars, true);

    assert_eq!(
        on_read_event(&mut conn, &mut viz, ReadEvent::ResetRequired),
        ReadStep::RebuildDecoder
    );
    // The rebuild resets the analyzer, including the shared bars.
    assert!(viz.published().iter().all(|&v| v == 0));
    assert!(!conn.dec_init);

    assert_eq!(on_read_event(&mut conn, &mut viz, ReadEvent::Fatal), ReadStep::Reconnect);
}

#[test]
fn first_frame_fixes_format_and_changes_are_spec_changes() {
    let mut conn = new_connection(0);
    let mut viz = VizState::new();
    // First decoded frame: not a spec change, audio is delivered.
    assert_eq!(
        on_decode_event(&mut conn, &mut viz, DecodeEvent::Frame { channels: 2, sample_rate: 44_100 }),
        DecodeStep::DeliverAudio
    );
    assert_eq!((conn.channels, conn.sample_rate), (2, 44_100));
    // Same format again: deliver.
    assert_eq!(
        on_decode_event(&mut conn, &mut viz, DecodeEvent::Frame { channels: 2, sample_rate: 44_100 }),
        DecodeStep::DeliverAudio
    );
    // A new sample rate mid-stream: spec change, no audio for this packet.
    assert_eq!(
        on_decode_event(&mut conn, &mut viz, DecodeEvent::Frame { channels: 2, sample_rate: 48_000 }),
        DecodeStep::SpecChanged
    );
    assert_eq!(conn.sample_rate, 48_000);
    // The next frame with the new format delivers again.
    assert_eq!(
        on_decode_event(&mut conn, &mut viz, DecodeEvent::Frame { channels: 2, sample_rate: 48_000 }),
        DecodeStep::DeliverAudio
    );
}

#[test]
fn decode_errors_classify_like_the_container() {
    let mut conn = new_connection(0);
    let mut viz = VizState::new();
    assert_eq!(on_decode_event(&mut conn, &mut viz, DecodeEvent::Recoverable), DecodeStep::Skip);
    assert_eq!(
        on_decode_event(&mut conn, &mut viz, DecodeEvent::ResetRequired),
        DecodeStep::RebuildDecoder
    );
    assert_eq!(on_decode_event(&mut conn, &mut viz, DecodeEvent::Fatal), DecodeStep::Reconnect);
}

#[test]
fn chunk_len_targets_ten_milliseconds() {
    // 44100 Hz stereo: 441 frames of 2 samples.
    assert_eq!(chunk_len(2, 44_100), 882);
    // Tiny rates still move at least one frame per chunk.
    assert_eq!(chunk_len(2, 50), 2);
    assert_eq!(chunk_len(1, 48_000), 480);
}

#[test]
fn chunk_bounds_partition_the_buffer() {
    assert_eq!(chunk_bounds(0, 10), vec![]);
    assert_eq!(chunk_bounds(25, 10), vec![(0, 10), (10, 20), (20, 25)]);
    assert_eq!(chunk_bounds(20, 10), vec![(0, 10), (10, 20)]);
    assert_eq!(chunk_bounds(3, 10), vec![(0, 3)]);
}

#[test]
fn useragent_is_deterministic() {
    assert_eq!(build_useragent("linux"), "listenmoe-v0.1.0-linux");
    assert_eq!(build_useragent("other"), "listenmoe-v0.1.0-other");
}

#[test]
fn success_status_is_exactly_2xx() {
    assert!(!is_success_status(199));
    assert!(is_success_status(200));
    assert!(is_success_status(299));
    assert!(!is_success_status(300));
    assert!(!is_success_status(404));
}
