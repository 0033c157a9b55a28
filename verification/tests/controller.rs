//! The stream and metadata controllers' state machines.

use listenmoe::controls::MediaControlEvent;
use listenmoe::meta::{Meta, MetaEffect};
use listenmoe::player::{Listen, SessionState, SetStationEffect, StartEffect};
use listenmoe::station::Station;

#[test]
fn new_controller_is_stopped_with_zeroed_bars() {
    let l = Listen::new(Station::Jpop);
    assert_eq!(l.get_station(), Station::Jpop);
    assert_eq!(l.lag_ms(), 0);
    let bars = l.spectrum_bars();
    assert_eq!(bars.len(), 48);
    assert!(bars.iter().all(|&b| b == 0));
}

#[test]
fn start_pause_resume_stop_transitions() {
    // start -> pause -> resume -> stop walks exactly
    // Stopped, Playing, Paused, Playing, Stopped, spawning one worker.
    let mut l = Listen::new(Station::Jpop);
    assert_eq!(l.start(1_000), StartEffect::SpawnWorker);
    assert!(l.pause(2_000));
    assert_eq!(l.start(3_000), StartEffect::SendResume);
    assert!(l.stop());
    // A fourth start from Stopped spawns again.
    assert_eq!(l.start(4_000), StartEffect::SpawnWorker);
    assert_eq!(l.start(5_000), StartEffect::AlreadyPlaying);
}

#[test]
fn stop_twice_is_idempotent() {
    let mut l = Listen::new(Station::Kpop);
    l.start(0);
    assert!(l.stop());
    // The second stop stays Stopped and must not send on the closed
    // channel.
    assert!(!l.stop());
    assert!(!l.stop());
}

#[test]
fn pause_while_stopped_is_a_no_op_transition() {
    let mut l = Listen::new(Station::Jpop);
    assert!(!l.pause(500));
    // Still stopped: a start spawns rather than resumes.
    assert_eq!(l.start(600), StartEffect::SpawnWorker);
}

#[test]
fn resume_credits_paused_time_to_lag() {
    let mut l = Listen::new(Station::Jpop);
    l.start(1_000);
    l.pause(5_000);
    l.start(12_500);
    assert_eq!(l.lag_ms(), 7_500);
    l.pause(20_000);
    l.start(21_000);
    assert_eq!(l.lag_ms(), 8_500);
}

#[test]
fn set_station_restarts_only_active_sessions() {
    let mut l = Listen::new(Station::Jpop);
    assert_eq!(l.set_station(Station::Kpop), SetStationEffect::StationOnly);
    assert_eq!(l.get_station(), Station::Kpop);

    l.start(0);
    assert_eq!(l.set_station(Station::Jpop), SetStationEffect::Restart);
    assert_eq!(l.get_station(), Station::Jpop);
    // Restart leaves the controller playing.
    assert_eq!(l.start(1), StartEffect::AlreadyPlaying);
}

#[test]
fn set_station_restarts_paused_sessions_into_playing() {
    let mut l = Listen::new(Station::Jpop);
    l.start(0);
    l.pause(10);
    assert_eq!(l.set_station(Station::Kpop), SetStationEffect::Restart);
    assert_eq!(l.start(20), StartEffect::AlreadyPlaying);
}

#[test]
fn session_state_enum_is_plain() {
    assert_ne!(SessionState::Stopped, SessionState::Playing);
    assert_ne!(SessionState::Paused, SessionState::Playing);
}

#[test]
fn meta_controller_spawns_once_and_stops_once() {
    let mut m = Meta::new(Station::Jpop);
    assert_eq!(m.get_station(), Station::Jpop);
    assert!(m.start());
    assert!(!m.start());
    assert!(m.stop());
    assert!(!m.stop());
}

#[test]
fn meta_set_station_restarts_only_running_clients() {
    let mut m = Meta::new(Station::Jpop);
    assert_eq!(m.set_station(Station::Kpop), MetaEffect::StationOnly);
    m.start();
    assert_eq!(m.set_station(Station::Jpop), MetaEffect::Restart);
    assert_eq!(m.get_station(), Station::Jpop);
}

#[test]
fn station_urls_and_flip() {
    assert_eq!(Station::Jpop.stream_url(), "https://listen.moe/stream");
    assert_eq!(Station::Jpop.stream_fallback_url(), "https://listen.moe/fallback");
    assert_eq!(Station::Jpop.ws_url(), "wss://listen.moe/gateway_v2");
    assert_eq!(Station::Kpop.stream_url(), "https://listen.moe/kpop/stream");
    assert_eq!(Station::Kpop.stream_fallback_url(), "https://listen.moe/kpop/fallback");
    assert_eq!(Station::Kpop.ws_url(), "wss://listen.moe/kpop/gateway_v2");
    assert_eq!(Station::Jpop.other(), Station::Kpop);
    assert_eq!(Station::Kpop.other(), Station::Jpop);
}

#[test]
fn media_control_events_are_distinct() {
    let all = [
        MediaControlEvent::Play,
        MediaControlEvent::Pause,
        MediaControlEvent::Stop,
        MediaControlEvent::Toggle,
        MediaControlEvent::Next,
        MediaControlEvent::Previous,
    ];
    for (i, a) in all.iter().enumerate() {
        for (j, b) in all.iter().enumerate() {
            assert_eq!(i == j, a == b);
        }
    }
}
