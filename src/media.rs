//! What the media-playback status means for the character.
use vstd::prelude::*;

verus! {

/// The playback status a system media session reports.
#[derive(Debug, Clone, Copy, PartialEq, Eq, Structural)]
pub enum PlaybackStatus {
    Closed,
    Opened,
    Changing,
    Stopped,
    Playing,
    Paused,
}

/// Whether the character should dance, given the result of a status query
/// (`None` when the query failed or there is no session): only while something
/// is playing. A failed query fails closed.
pub fn should_dance(status: Option<PlaybackStatus>) -> (r: bool)
    ensures
        r == (status == Some(PlaybackStatus::Playing)),
{
    match status {
        Some(PlaybackStatus::Playing) => true,
        _ => false,
    }
}

} // verus!
