//! The gateway protocol: hello, heartbeat, dispatch, and track parsing.

use listenmoe::gateway::{
    handle_frame, heartbeat_due, heartbeat_payload, hello_heartbeat, retry_after_session,
    FrameAction, TrackInfo,
};
use listenmoe::json::str_to_chars;

fn frame(text: &str) -> FrameAction {
    handle_frame(&str_to_chars(text))
}

fn hello(text: &str) -> Option<u64> {
    hello_heartbeat(&str_to_chars(text))
}

fn track_of(text: &str) -> TrackInfo {
    match frame(text) {
        FrameAction::Track(info) => info,
        other => panic!("expected a track update, got {other:?}"),
    }
}

#[test]
fn hello_configures_the_heartbeat_interval() {
    assert_eq!(hello("{\"op\":0,\"d\":{\"heartbeat\":45000}}"), Some(45_000));
}

#[test]
fn hello_without_usable_interval_means_no_heartbeat() {
    assert_eq!(hello("{\"op\":1,\"d\":{\"heartbeat\":45000}}"), None);
    assert_eq!(hello("{\"op\":0,\"d\":{}}"), None);
    assert_eq!(hello("{\"op\":0}"), None);
    assert_eq!(hello("{\"op\":0,\"d\":{\"heartbeat\":-1}}"), None);
    assert_eq!(hello("{\"op\":0,\"d\":{\"heartbeat\":\"soon\"}}"), None);
    assert_eq!(hello("not json"), None);
}

#[test]
fn track_update_yields_full_track_info() {
    let info = track_of(
        "{\"op\":1,\"t\":\"TRACK_UPDATE\",\"d\":{\"song\":{\"title\":\"A\",\
         \"artists\":[{\"name\":\"X\"},{\"name\":\"Y\"}],\
         \"albums\":[{\"image\":\"abc.jpg\"}]}}}",
    );
    assert_eq!(info.title, "A");
    assert_eq!(info.artist, "X, Y");
    assert_eq!(info.album_cover.as_deref(), Some("https://cdn.listen.moe/covers/abc.jpg"));
    assert_eq!(info.artist_image, None);
}

#[test]
fn track_defaults_for_missing_fields() {
    let info = track_of("{\"op\":1,\"t\":\"TRACK_UPDATE\",\"d\":{\"song\":{}}}");
    assert_eq!(info.title, "unknown title");
    assert_eq!(info.artist, "Unknown artist");
    assert_eq!(info.album_cover, None);
    assert_eq!(info.artist_image, None);
}

#[test]
fn track_with_artist_image() {
    let info = track_of(
        "{\"op\":1,\"t\":\"TRACK_UPDATE\",\"d\":{\"song\":{\"title\":null,\
         \"artists\":[{\"name\":\"Solo\",\"image\":\"solo.png\"}]}}}",
    );
    assert_eq!(info.title, "unknown title");
    assert_eq!(info.artist, "Solo");
    assert_eq!(info.artist_image.as_deref(), Some("https://cdn.listen.moe/artists/solo.png"));
}

#[test]
fn artists_without_names_join_to_empty() {
    // A nonempty artist list whose entries carry no names joins to the
    // empty string rather than the "Unknown artist" default.
    let info = track_of(
        "{\"op\":1,\"t\":\"TRACK_UPDATE\",\"d\":{\"song\":{\"title\":\"B\",\
         \"artists\":[{\"image\":\"i.png\"},{}]}}}",
    );
    assert_eq!(info.artist, "");
}

#[test]
fn undecodable_song_payloads_are_ignored() {
    assert!(matches!(frame("{\"op\":1,\"t\":\"TRACK_UPDATE\"}"), FrameAction::Ignore));
    assert!(matches!(
        frame("{\"op\":1,\"t\":\"TRACK_UPDATE\",\"d\":{\"song\":null}}"),
        FrameAction::Ignore
    ));
    assert!(matches!(
        frame("{\"op\":1,\"t\":\"TRACK_UPDATE\",\"d\":{\"song\":{\"artists\":null}}}"),
        FrameAction::Ignore
    ));
    assert!(matches!(
        frame("{\"op\":1,\"t\":\"TRACK_UPDATE\",\"d\":{\"song\":{\"title\":7}}}"),
        FrameAction::Ignore
    ));
}

#[test]
fn heartbeat_ack_and_unknown_frames() {
    assert!(matches!(frame("{\"op\":10}"), FrameAction::Ack));
    assert!(matches!(frame("{\"op\":2}"), FrameAction::Ignore));
    assert!(matches!(frame("{\"op\":1,\"t\":\"OTHER\",\"d\":{}}"), FrameAction::Ignore));
    assert!(matches!(frame("{\"op\":1}"), FrameAction::Ignore));
    assert!(matches!(frame("{\"op\":\"zero\"}"), FrameAction::Ignore));
    assert!(matches!(frame("[1,2,3]"), FrameAction::Ignore));
}

#[test]
fn malformed_frame_is_dropped_and_the_next_one_processed() {
    // The malformed frame from the wire is ignored, not fatal.
    assert!(matches!(frame("{\"op\":}"), FrameAction::Ignore));
    // The very next valid frame is still processed normally.
    assert!(matches!(frame("{\"op\":10}"), FrameAction::Ack));
}

#[test]
fn heartbeat_schedule_and_payload() {
    assert!(heartbeat_due(45_000, 0, 45_000));
    assert!(!heartbeat_due(44_999, 0, 45_000));
    assert!(heartbeat_due(100_000, 50_000, 45_000));
    assert_eq!(heartbeat_payload(), "{\"op\":9}");
}

#[test]
fn session_retries_unless_stopped() {
    // A clean close and an error retry alike; only a stop ends the loop.
    assert!(retry_after_session(false));
    assert!(!retry_after_session(true));
}
