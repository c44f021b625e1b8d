//! Pausing and resuming the current track.

use vstd::prelude::*;

verus! {

/// The state of the player of the current track.
#[derive(Debug, Clone, Copy, PartialEq, Eq)]
pub enum PlayMode {
    Play,
    Pause,
    Stop,
    End,
    Errored,
}

/// What a command does to the current track.
#[derive(Debug, Clone, Copy, PartialEq, Eq)]
pub enum PauseAction {
    /// Pause the track.
    Pause,
    /// Play the track again.
    Resume,
    /// Leave the track as it is.
    Keep,
}

/// `pause` pauses a playing track and leaves a track in any other state as it is.
pub fn pause_action(mode: PlayMode) -> (action: PauseAction)
    ensures
        action == (if mode is Play { PauseAction::Pause } else { PauseAction::Keep }),
{
    match mode {
        PlayMode::Play => PauseAction::Pause,
        _ => PauseAction::Keep,
    }
}

/// `resume` plays a paused track again and leaves a track in any other state as it is.
pub fn resume_action(mode: PlayMode) -> (action: PauseAction)
    ensures
        action == (if mode is Pause { PauseAction::Resume } else { PauseAction::Keep }),
{
    match mode {
        PlayMode::Pause => PauseAction::Resume,
        _ => PauseAction::Keep,
    }
}

/// What the bot does when its own voice state changes while a track is current: muted, it
/// pauses the track; unmuted, it plays it. Nothing otherwise.
pub fn mute_sync(own_update: bool, has_current: bool, muted: bool) -> (action: Option<PauseAction>)
    ensures
        action == (if own_update && has_current {
            Some(if muted { PauseAction::Pause } else { PauseAction::Resume })
        } else {
            None
        }),
{
    if own_update && has_current {
        if muted {
            Some(PauseAction::Pause)
        } else {
            Some(PauseAction::Resume)
        }
    } else {
        None
    }
}

} // verus!
