//! How many tracks `skip` skips, what it says and what it scrobbles.

use vstd::prelude::*;

use crate::scrobbler::ScrobbleInfo;
use crate::state::Track;
use crate::text::{all_digits, decimal, digits_value, lemma_decimal, push_decimal, string_from_chars};

verus! {

/// How many tracks a `skip` skips: `None` when nothing is queued; otherwise the count asked for
/// (one by default), but no more than the queue holds.
pub fn skip_count(requested: Option<usize>, queue_len: usize) -> (n: Option<usize>)
    ensures
        queue_len == 0 ==> n is None,
        queue_len > 0 ==> n == Some(({
            let want = match requested { Some(k) => k, None => 1usize };
            if want >= queue_len { queue_len } else { want }
        })),
{
    if queue_len == 0 {
        return None;
    }
    let want = match requested {
        Some(k) => k,
        None => 1,
    };
    if want >= queue_len {
        Some(queue_len)
    } else {
        Some(want)
    }
}

/// The text announcing that `n` tracks were skipped: `track` for one (or none), `tracks` for more.
pub open spec fn skipped_text(n: nat) -> Seq<char> {
    seq!['\u{23E9}', ' ', 'S', 'k', 'i', 'p', 'p', 'e', 'd', ' '] + decimal(n) + seq![' ', 't', 'r', 'a', 'c', 'k']
        + (if n > 1 { seq!['s'] } else { Seq::<char>::empty() })
}

/// The text announcing that `n` tracks were skipped.
pub fn skipped_message(n: usize) -> (text: String)
    ensures
        text@ == skipped_text(n as nat),
        n > 1 ==> text@.subrange(text@.len() - 7, text@.len() as int) == seq![' ', 't', 'r', 'a', 'c', 'k', 's'],
        n <= 1 ==> text@.subrange(text@.len() - 6, text@.len() as int) == seq![' ', 't', 'r', 'a', 'c', 'k'],
{
    let mut out: Vec<char> = Vec::new();
    out.push('\u{23E9}');
    out.push(' ');
    out.push('S');
    out.push('k');
    out.push('i');
    out.push('p');
    out.push('p');
    out.push('e');
    out.push('d');
    out.push(' ');
    push_decimal(&mut out, n as u64);
    out.push(' ');
    out.push('t');
    out.push('r');
    out.push('a');
    out.push('c');
    out.push('k');
    if n > 1 {
        out.push('s');
    }
    assert(out@ =~= skipped_text(n as nat));
    proof {
        law_skipped_text(n as nat);
    }
    string_from_chars(&out)
}

/// What a skip scrobbles of a track: its artist and name, with no album.
pub fn skip_scrobble(track: &Track) -> (s: ScrobbleInfo)
    ensures
        s.artist@ == track.artist@,
        s.track@ == track.name@,
        s.album@ == Seq::<char>::empty(),
{
    ScrobbleInfo { artist: track.artist.clone(), track: track.name.clone(), album: String::new() }
}

/// What a skip reports to Last.fm once the player has skipped: the skipped track as listened
/// to, and the next track as now playing.
pub struct SkipReports {
    pub scrobble: Option<ScrobbleInfo>,
    pub now_playing: Option<ScrobbleInfo>,
}

/// Whether `info` is what a skip reports of `track`: its artist and name, no album.
pub open spec fn reports(info: ScrobbleInfo, track: Track) -> bool {
    info.artist@ == track.artist@ && info.track@ == track.name@ && info.album@ == Seq::<char>::empty()
}

/// What a skip of `skipped` tracks reports, given the track that was playing, the track now
/// at the front, and whether the queue ran out before all were skipped. The track that was
/// playing is scrobbled when a skip ran through and it may be scrobbled; the next track is
/// reported as now playing when it may be scrobbled. Nothing is reported when nothing was
/// skipped.
pub fn skip_reports(skipped: usize, ran_out: bool, old: &Track, next: &Option<Track>) -> (r: SkipReports)
    ensures
        if skipped > 0 && !ran_out && old.can_scrobble {
            r.scrobble matches Some(s) && reports(s, *old) && s.artist@ == old.artist@ && s.track@ == old.name@ && s.album@.len() == 0
        } else {
            r.scrobble is None
        },
        if skipped > 0 && (*next matches Some(t) && t.can_scrobble) {
            r.now_playing matches Some(s) && reports(s, next.unwrap()) && s.artist@ == next.unwrap().artist@
                && s.track@ == next.unwrap().name@ && s.album@.len() == 0
        } else {
            r.now_playing is None
        },
{
    let scrobble = if skipped > 0 && !ran_out && old.can_scrobble {
        Some(skip_scrobble(old))
    } else {
        None
    };
    let now_playing = match next {
        Some(t) => {
            if skipped > 0 && t.can_scrobble {
                Some(skip_scrobble(t))
            } else {
                None
            }
        },
        None => None,
    };
    SkipReports { scrobble, now_playing }
}

/// The skip announcement is `⏩ Skipped `, then the count in decimal digits, then ` tracks`
/// when more than one track was skipped and ` track` otherwise.
pub proof fn law_skipped_text(n: nat)
    ensures
        ({
            let t = skipped_text(n);
            let count = t.subrange(10, t.len() - (if n > 1 { 7int } else { 6int }));
            &&& t.take(10) == seq!['\u{23E9}', ' ', 'S', 'k', 'i', 'p', 'p', 'e', 'd', ' ']
            &&& count.len() > 0 && all_digits(count) && digits_value(count) == n
            &&& n > 1 ==> t.subrange(t.len() - 7, t.len() as int) == seq![' ', 't', 'r', 'a', 'c', 'k', 's']
            &&& n <= 1 ==> t.subrange(t.len() - 6, t.len() as int) == seq![' ', 't', 'r', 'a', 'c', 'k']
            &&& (t.last() == 's') == (n > 1)
        }),
{
    lemma_decimal(n);
    let t = skipped_text(n);
    let d = decimal(n);
    let suffix = if n > 1 { 7int } else { 6int };
    assert(t.take(10) =~= seq!['\u{23E9}', ' ', 'S', 'k', 'i', 'p', 'p', 'e', 'd', ' ']);
    assert(t.subrange(10, t.len() - suffix) =~= d);
    if n > 1 {
        assert(t.subrange(t.len() - 7, t.len() as int) =~= seq![' ', 't', 'r', 'a', 'c', 'k', 's']);
    } else {
        assert(t.subrange(t.len() - 6, t.len() as int) =~= seq![' ', 't', 'r', 'a', 'c', 'k']);
    }
}

} // verus!
