//! When a player event ends the track at the front of a queue.

use vstd::prelude::*;

use crate::commands::pause::PlayMode;
use crate::state::Track;

verus! {

/// Whether a player event ends the track at the front of the queue: the event's player plays
/// that track (same handle id) and it has ended or been stopped.
pub fn ends_front(front: &Option<Track>, handle_uuid: &String, mode: PlayMode) -> (ends: bool)
    ensures
        ends == (*front matches Some(t) && t.handle_uuid@ == handle_uuid@ && (mode is End || mode is Stop)),
{
    match front {
        Some(t) => {
            if t.handle_uuid == *handle_uuid {
                match mode {
                    PlayMode::End => true,
                    PlayMode::Stop => true,
                    _ => false,
                }
            } else {
                false
            }
        },
        None => false,
    }
}

} // verus!
