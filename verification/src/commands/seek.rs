//! Whether a seek stays within the current track.

use vstd::prelude::*;

use crate::commands::utils::{clock_text, law_time_round_trip, time_seconds, time_to_duration};

verus! {

/// Whether a seek to `requested` seconds stays within a track whose duration reads
/// `track_duration`: the seek is refused only past the track's end.
pub fn seek_within(requested: u64, track_duration: &String) -> (ok: bool)
    requires
        time_seconds(track_duration@) is Some,
    ensures
        ok == !(time_seconds(track_duration@).unwrap() < requested),
{
    let length = time_to_duration(track_duration);
    !(length < requested)
}

/// A track whose duration was written by `duration_to_time` can always be checked, and a seek
/// into it is allowed exactly up to its length within the day.
pub proof fn law_seek_within_rendered(length: nat, requested: u64)
    ensures
        time_seconds(clock_text(length)) is Some,
        !(time_seconds(clock_text(length)).unwrap() < requested) == (requested <= length % 86400),
{
    law_time_round_trip(length);
}

} // verus!
