//! Media-key events, as delivered by the desktop's media controls.

use vstd::prelude::*;

verus! {

/// One media-key press, forwarded by the desktop integration to the
/// players' controllers.
#[derive(Clone, Copy, Debug, PartialEq, Eq, Structural)]
pub enum MediaControlEvent {
    Play,
    Pause,
    Stop,
    Toggle,
    Next,
    Previous,
}

} // verus!
