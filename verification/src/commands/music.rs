//! What a `play` request asks for, and the tracks it queues.

use vstd::prelude::*;

use crate::commands::utils::{clock_text, duration_to_time};
use crate::state::{Track, TrackView, empty_track};
use crate::text::{chars_of, split_chars, split_on, string_from_chars, char_views};

verus! {

/// Links to Spotify playlists, as the `play` command recognises them.
pub const PLAYLIST_PATTERN: &'static str = r"https:\/\/open.spotify.com\/playlist\/[A-Za-z0-9]+(\?si=[a-f0-9]+)?";

/// Links to Spotify albums, as the `play` command recognises them.
pub const ALBUM_PATTERN: &'static str = r"https:\/\/open.spotify.com\/album\/[A-Za-z0-9]+(\?si=[a-f0-9]+)?";

/// What a playlist link starts with, before the playlist's id.
pub const PLAYLIST_PREFIX: &'static str = "https://open.spotify.com/playlist/";

/// What an album link starts with, before the album's id.
pub const ALBUM_PREFIX: &'static str = "https://open.spotify.com/album/";

/// What marks the first word of a request as a link.
pub const LINK_START: &'static str = "http";

/// Whether a regular expression, compiled with `regex::Regex::new`, matches somewhere in a text;
/// `None` where the pattern does not compile.
pub uninterp spec fn regex_search(pattern: Seq<char>, text: Seq<char>) -> Option<bool>;

/// Compiles `pattern` with `regex::Regex::new` and asks `Regex::is_match` whether it matches
/// anywhere in `text`. The result is taken as `regex_search` of the two texts; what that is,
/// is left to the regex crate.
#[verifier::external_body]
fn regex_is_match(pattern: &str, text: &str) -> (found: Option<bool>)
    ensures
        found == regex_search(pattern@, text@),
{
    match regex::Regex::new(pattern) {
        Ok(re) => Some(re.is_match(text)),
        Err(_) => None,
    }
}

/// Whether `s` begins with `p`.
pub open spec fn starts_with(s: Seq<char>, p: Seq<char>) -> bool {
    p.len() <= s.len() && s.take(p.len() as int) == p
}

/// The id in a link after `prefix`: what follows the prefix, up to the first `?`.
pub open spec fn link_id(link: Seq<char>, prefix: Seq<char>) -> Seq<char> {
    split_on(link.skip(prefix.len() as int), '?')[0]
}

/// The words joined with single spaces.
pub open spec fn joined(words: Seq<Seq<char>>) -> Seq<char>
    decreases words.len(),
{
    if words.len() == 0 {
        Seq::empty()
    } else if words.len() == 1 {
        words[0]
    } else {
        joined(words.drop_last()) + seq![' '] + words.last()
    }
}

/// The texts of a list of strings.
pub open spec fn string_views(v: Seq<String>) -> Seq<Seq<char>> {
    v.map_values(|s: String| s@)
}

/// What comes after a playlist link has been handled.
pub enum AlbumStep {
    /// Nothing more: the link was a playlist.
    Skip,
    /// Queue the album with this id.
    Album(String),
    /// Tell the user that only playlist and album links are taken: the link is neither.
    Unsupported,
    /// Stop: the album pattern does not compile, or the link matched it without starting with
    /// the album prefix.
    Abort,
}

/// What a `play` request asks for.
pub enum MusicRequest {
    /// A link: the playlist to queue, if it is one, then the album step.
    Link { playlist_id: Option<String>, album: AlbumStep },
    /// A search for the words, joined with spaces.
    Search(String),
}

/// The contents of an [`AlbumStep`].
pub enum AlbumStepView {
    Skip,
    Album(Seq<char>),
    Unsupported,
    Abort,
}

/// The contents of a [`MusicRequest`].
pub enum MusicRequestView {
    Link { playlist_id: Option<Seq<char>>, album: AlbumStepView },
    Search(Seq<char>),
}

impl View for AlbumStep {
    type V = AlbumStepView;

    open spec fn view(&self) -> AlbumStepView {
        match self {
            AlbumStep::Skip => AlbumStepView::Skip,
            AlbumStep::Album(id) => AlbumStepView::Album(id@),
            AlbumStep::Unsupported => AlbumStepView::Unsupported,
            AlbumStep::Abort => AlbumStepView::Abort,
        }
    }
}

impl View for MusicRequest {
    type V = MusicRequestView;

    open spec fn view(&self) -> MusicRequestView {
        match self {
            MusicRequest::Link { playlist_id, album } => MusicRequestView::Link {
                playlist_id: match playlist_id {
                    Some(id) => Some(id@),
                    None => None,
                },
                album: album@,
            },
            MusicRequest::Search(q) => MusicRequestView::Search(q@),
        }
    }
}

/// The request that the words of a `play` command make, given whether the first word matches
/// the playlist pattern and the album pattern (`None`: the pattern does not compile). `None`
/// where the command stops before doing anything: the playlist pattern does not compile, or the
/// first word matches it without starting with the playlist prefix. A playlist link is
/// handled as a playlist alone; the album pattern decides only for other links.
pub open spec fn plan_spec(words: Seq<Seq<char>>, playlist_match: Option<bool>, album_match: Option<bool>) -> Option<MusicRequestView> {
    let first = words[0];
    if !starts_with(first, LINK_START@) {
        Some(MusicRequestView::Search(joined(words)))
    } else {
        match playlist_match {
            None => None,
            Some(p) => {
                if p && !starts_with(first, PLAYLIST_PREFIX@) {
                    None
                } else {
                    let album = if p {
                        AlbumStepView::Skip
                    } else {
                        match album_match {
                            None => AlbumStepView::Abort,
                            Some(a) => if !a {
                                AlbumStepView::Unsupported
                            } else if starts_with(first, ALBUM_PREFIX@) {
                                AlbumStepView::Album(link_id(first, ALBUM_PREFIX@))
                            } else {
                                AlbumStepView::Abort
                            },
                        }
                    };
                    Some(MusicRequestView::Link {
                        playlist_id: if p { Some(link_id(first, PLAYLIST_PREFIX@)) } else { None },
                        album,
                    })
                }
            },
        }
    }
}

fn has_prefix(s: &Vec<char>, p: &str) -> (r: bool)
    ensures
        r == starts_with(s@, p@),
{
    let pc = chars_of(p);
    if pc.len() > s.len() {
        return false;
    }
    let mut i: usize = 0;
    while i < pc.len()
        invariant
            pc@ == p@,
            pc.len() <= s.len(),
            i <= pc.len(),
            s@.take(i as int) == pc@.take(i as int),
        decreases pc.len() - i,
    {
        if s[i] != pc[i] {
            assert(s@.take(pc@.len() as int)[i as int] != pc@[i as int]);
            return false;
        }
        i += 1;
        assert(s@.take(i as int) =~= pc@.take(i as int));
    }
    assert(pc@.take(pc@.len() as int) =~= pc@);
    true
}

fn id_after(link: &Vec<char>, prefix: &str) -> (id: String)
    requires
        starts_with(link@, prefix@),
    ensures
        id@ == link_id(link@, prefix@),
{
    let n = chars_of(prefix).len();
    let mut rest: Vec<char> = Vec::new();
    let mut i: usize = n;
    while i < link.len()
        invariant
            n == prefix@.len(),
            n <= i <= link.len(),
            rest@ == link@.subrange(n as int, i as int),
        decreases link.len() - i,
    {
        rest.push(link[i]);
        i += 1;
        assert(rest@ =~= link@.subrange(n as int, i as int));
    }
    assert(rest@ =~= link@.skip(n as int));
    let pieces = split_chars(&rest, '?');
    proof {
        crate::text::lemma_split_len(rest@, '?');
    }
    assert(char_views(pieces@)[0] == pieces@[0]@);
    string_from_chars(&pieces[0])
}

/// The words joined with single spaces.
pub fn join_words(words: &Vec<String>) -> (s: String)
    ensures
        s@ == joined(string_views(words@)),
{
    let mut s = String::new();
    let mut i: usize = 0;
    while i < words.len()
        invariant
            i <= words.len(),
            s@ == joined(string_views(words@).take(i as int)),
        decreases words.len() - i,
    {
        let ghost ws = string_views(words@);
        assert(ws.take(i + 1).drop_last() =~= ws.take(i as int));
        assert(ws.take(i + 1).last() == words@[i as int]@);
        if i > 0 {
            s.append(" ");
            proof {
                reveal_strlit(" ");
            }
        } else {
            assert(ws.take(0) =~= Seq::<Seq<char>>::empty());
        }
        s.append(words[i].as_str());
        i += 1;
        assert(s@ =~= joined(string_views(words@).take(i as int)));
    }
    assert(string_views(words@).take(words.len() as int) =~= string_views(words@));
    s
}

/// The request that the words of a `play` command make, given whether the first word matches
/// the playlist pattern and the album pattern.
pub fn plan_request(words: &Vec<String>, playlist_match: Option<bool>, album_match: Option<bool>) -> (r: Option<MusicRequest>)
    requires
        words.len() > 0,
    ensures
        match r {
            Some(req) => plan_spec(string_views(words@), playlist_match, album_match) == Some(req@),
            None => plan_spec(string_views(words@), playlist_match, album_match) is None,
        },
{
    let first = chars_of(words[0].as_str());
    assert(string_views(words@)[0] == first@);
    if !has_prefix(&first, LINK_START) {
        return Some(MusicRequest::Search(join_words(words)));
    }
    let p = match playlist_match {
        None => return None,
        Some(p) => p,
    };
    let on_playlist = has_prefix(&first, PLAYLIST_PREFIX);
    if p && !on_playlist {
        return None;
    }
    let album = if p {
        AlbumStep::Skip
    } else {
        match album_match {
            None => AlbumStep::Abort,
            Some(a) => {
                if !a {
                    AlbumStep::Unsupported
                } else if has_prefix(&first, ALBUM_PREFIX) {
                    AlbumStep::Album(id_after(&first, ALBUM_PREFIX))
                } else {
                    AlbumStep::Abort
                }
            },
        }
    };
    let playlist_id = if p {
        Some(id_after(&first, PLAYLIST_PREFIX))
    } else {
        None
    };
    Some(MusicRequest::Link { playlist_id, album })
}

/// The request that the words of a `play` command make: a search for the words, or, for a
/// link, the playlist and album steps; `None` where the command stops before doing anything.
pub fn music_request(words: &Vec<String>) -> (r: Option<MusicRequest>)
    requires
        words.len() > 0,
    ensures
        match r {
            Some(req) => plan_spec(string_views(words@), regex_search(PLAYLIST_PATTERN@, words@[0]@), regex_search(ALBUM_PATTERN@, words@[0]@)) == Some(req@),
            None => plan_spec(string_views(words@), regex_search(PLAYLIST_PATTERN@, words@[0]@), regex_search(ALBUM_PATTERN@, words@[0]@)) is None,
        },
{
    let first = words[0].as_str();
    let playlist_match = regex_is_match(PLAYLIST_PATTERN, first);
    let album_match = regex_is_match(ALBUM_PATTERN, first);
    plan_request(words, playlist_match, album_match)
}

/// A track found on Spotify, as far as the bot reads it: its name, its artists' names, and its
/// album's name and cover image addresses.
pub struct SpotifyTrackInfo {
    pub name: String,
    pub artists: Vec<String>,
    pub album_name: String,
    pub album_images: Vec<String>,
}

/// A track listed in a Spotify album: its name and its artists' names.
pub struct SpotifyAlbumTrack {
    pub name: String,
    pub artists: Vec<String>,
}

/// A track to play, made from what Spotify says of it; it may be scrobbled, and it has no
/// duration or player handle yet.
pub open spec fn song_track(name: Seq<char>, artist: Seq<char>, album: Seq<char>, thumbnail: Seq<char>, from_playlist: bool) -> TrackView {
    TrackView {
        name,
        handle_uuid: Seq::empty(),
        artist,
        duration: Seq::empty(),
        thumbnail,
        album,
        can_scrobble: true,
        from_playlist,
    }
}

/// Whether the bot can read a found track: it names an artist and its album has an image.
pub open spec fn readable(song: SpotifyTrackInfo) -> bool {
    song.artists.len() > 0 && song.album_images.len() > 0
}

/// The track to play for a found Spotify track: first artist, album cover as thumbnail.
pub open spec fn found_track(song: SpotifyTrackInfo, from_playlist: bool) -> TrackView {
    song_track(song.name@, song.artists@[0]@, song.album_name@, song.album_images@[0]@, from_playlist)
}

/// The tracks to play for the items of a playlist, episodes (`None`) left out, in order.
pub open spec fn playlist_spec(items: Seq<Option<SpotifyTrackInfo>>) -> Seq<TrackView>
    decreases items.len(),
{
    if items.len() == 0 {
        Seq::empty()
    } else {
        let rest = playlist_spec(items.drop_last());
        match items.last() {
            Some(song) => rest.push(found_track(song, true)),
            None => rest,
        }
    }
}

/// The track to play for a found Spotify track.
pub fn track_from_song(song: &SpotifyTrackInfo, from_playlist: bool) -> (t: Track)
    requires
        readable(*song),
    ensures
        t@ == found_track(*song, from_playlist),
        t.name@ == song.name@,
        t.artist@ == song.artists@[0]@,
        t.album@ == song.album_name@,
        t.thumbnail@ == song.album_images@[0]@,
        t.can_scrobble,
        t.from_playlist == from_playlist,
        t.duration@.len() == 0,
        t.handle_uuid@.len() == 0,
{
    Track {
        can_scrobble: true,
        album: song.album_name.clone(),
        artist: song.artists[0].clone(),
        name: song.name.clone(),
        thumbnail: song.album_images[0].clone(),
        from_playlist,
        duration: String::new(),
        handle_uuid: String::new(),
    }
}

/// The track to play for a search: the first hit, or the empty track when the search failed.
pub fn search_track(found: &Option<SpotifyTrackInfo>) -> (t: Track)
    requires
        *found matches Some(song) ==> readable(song),
    ensures
        match found {
            Some(song) => t@ == found_track(*song, false),
            None => t@ == empty_track(),
        },
        match found {
            Some(song) => t.name@ == song.name@ && t.artist@ == song.artists@[0]@ && t.album@ == song.album_name@
                && t.thumbnail@ == song.album_images@[0]@ && t.can_scrobble && !t.from_playlist,
            None => t.name@.len() == 0 && t.artist@.len() == 0 && t.album@.len() == 0 && t.thumbnail@.len() == 0
                && !t.can_scrobble && !t.from_playlist,
        },
{
    match found {
        Some(song) => track_from_song(song, false),
        None => Track::default(),
    }
}

/// The tracks to play for the items of a playlist, episodes (`None`) left out, in order.
pub fn playlist_tracks(items: &Vec<Option<SpotifyTrackInfo>>) -> (tracks: Vec<Track>)
    requires
        forall|i: int| 0 <= i < items.len() ==> (#[trigger] items@[i] matches Some(song) ==> readable(song)),
    ensures
        crate::state::track_views(tracks@) == playlist_spec(items@),
        ({
            let songs = items@.filter(|o: Option<SpotifyTrackInfo>| o is Some);
            &&& tracks@.len() == songs.len()
            &&& forall|j: int| 0 <= j < songs.len() ==> {
                let song = songs[j]->0;
                &&& (#[trigger] tracks@[j]).name@ == song.name@
                &&& tracks@[j].artist@ == song.artists@[0]@
                &&& tracks@[j].album@ == song.album_name@
                &&& tracks@[j].thumbnail@ == song.album_images@[0]@
                &&& tracks@[j].can_scrobble
                &&& tracks@[j].from_playlist
                &&& tracks@[j].duration@.len() == 0
                &&& tracks@[j].handle_uuid@.len() == 0
            }
        }),
{
    let mut tracks: Vec<Track> = Vec::new();
    let mut i: usize = 0;
    while i < items.len()
        invariant
            i <= items.len(),
            forall|k: int| 0 <= k < items.len() ==> (#[trigger] items@[k] matches Some(song) ==> readable(song)),
            crate::state::track_views(tracks@) == playlist_spec(items@.take(i as int)),
        decreases items.len() - i,
    {
        let ghost prev = tracks@;
        assert(items@.take(i + 1).drop_last() =~= items@.take(i as int));
        assert(items@.take(i + 1).last() == items@[i as int]);
        match &items[i] {
            Some(song) => {
                let t = track_from_song(song, true);
                tracks.push(t);
                assert(crate::state::track_views(tracks@) =~= crate::state::track_views(prev).push(found_track(*song, true)));
            },
            None => {},
        }
        i += 1;
    }
    assert(items@.take(items.len() as int) =~= items@);
    proof {
        law_playlist_follows_items(items@);
        assert forall|j: int| 0 <= j < tracks@.len() implies crate::state::track_views(tracks@)[j] == (#[trigger] tracks@[j])@ by {}
    }
    tracks
}

/// The tracks to play for an album: each track's first artist, the album's name and its first
/// image.
pub fn album_tracks(album_name: &String, album_images: &Vec<String>, songs: &Vec<SpotifyAlbumTrack>) -> (tracks: Vec<Track>)
    requires
        album_images.len() > 0,
        forall|i: int| 0 <= i < songs.len() ==> (#[trigger] songs@[i]).artists.len() > 0,
    ensures
        tracks@.len() == songs@.len(),
        forall|i: int| 0 <= i < songs.len() ==> (#[trigger] tracks@[i])@ == song_track(songs@[i].name@, songs@[i].artists@[0]@, album_name@, album_images@[0]@, true),
        forall|i: int| 0 <= i < songs.len() ==> {
            &&& (#[trigger] tracks@[i]).name@ == songs@[i].name@
            &&& tracks@[i].artist@ == songs@[i].artists@[0]@
            &&& tracks@[i].album@ == album_name@
            &&& tracks@[i].thumbnail@ == album_images@[0]@
            &&& tracks@[i].can_scrobble
            &&& tracks@[i].from_playlist
        },
{
    let mut tracks: Vec<Track> = Vec::new();
    let mut i: usize = 0;
    while i < songs.len()
        invariant
            i <= songs.len(),
            album_images.len() > 0,
            forall|k: int| 0 <= k < songs.len() ==> (#[trigger] songs@[k]).artists.len() > 0,
            tracks@.len() == i,
            forall|k: int| 0 <= k < i ==> (#[trigger] tracks@[k])@ == song_track(songs@[k].name@, songs@[k].artists@[0]@, album_name@, album_images@[0]@, true),
        decreases songs.len() - i,
    {
        let song = &songs[i];
        let t = Track {
            can_scrobble: true,
            album: album_name.clone(),
            artist: song.artists[0].clone(),
            name: song.name.clone(),
            thumbnail: album_images[0].clone(),
            from_playlist: true,
            duration: String::new(),
            handle_uuid: String::new(),
        };
        tracks.push(t);
        i += 1;
    }
    tracks
}

/// The text searched on YouTube for a track: its name, ` - `, its artist.
pub fn youtube_query(track: &Track) -> (q: String)
    ensures
        q@ == track.name@ + seq![' ', '-', ' '] + track.artist@,
{
    let mut q = track.name.clone();
    q.append(" - ");
    proof {
        reveal_strlit(" - ");
    }
    q.append(track.artist.as_str());
    q
}

/// The track once it plays: its duration as `H:MM:SS` (zero when unknown) and the id of the
/// player that plays it; the rest as it was.
pub fn with_playback(track: Track, duration: Option<u64>, handle_uuid: String) -> (t: Track)
    ensures
        t@ == (TrackView {
            duration: clock_text(match duration { Some(d) => d as nat, None => 0 }),
            handle_uuid: handle_uuid@,
            ..track@
        }),
{
    let secs = match duration {
        Some(d) => d,
        None => 0,
    };
    let mut t = track;
    t.duration = duration_to_time(secs);
    t.handle_uuid = handle_uuid;
    t
}

/// A playlist link is handled as a playlist alone: it is never answered as an unsupported
/// link, whatever the album pattern says.
pub proof fn law_playlist_link_is_supported(words: Seq<Seq<char>>, album_match: Option<bool>)
    requires
        words.len() > 0,
        starts_with(words[0], LINK_START@),
        starts_with(words[0], PLAYLIST_PREFIX@),
    ensures
        plan_spec(words, Some(true), album_match) == Some(MusicRequestView::Link {
            playlist_id: Some(link_id(words[0], PLAYLIST_PREFIX@)),
            album: AlbumStepView::Skip,
        }),
{
}

/// The tracks made from a playlist are its track items in order, episodes left out, each one
/// showing that item's name, first artist, album name and first album image, from a playlist
/// and scrobbled.
pub proof fn law_playlist_follows_items(items: Seq<Option<SpotifyTrackInfo>>)
    ensures
        ({
            let songs = items.filter(|o: Option<SpotifyTrackInfo>| o is Some);
            let made = playlist_spec(items);
            &&& made.len() == songs.len()
            &&& forall|j: int| 0 <= j < songs.len() ==> {
                let song = songs[j]->0;
                &&& (#[trigger] made[j]).name == song.name@
                &&& made[j].artist == song.artists@[0]@
                &&& made[j].album == song.album_name@
                &&& made[j].thumbnail == song.album_images@[0]@
                &&& made[j].can_scrobble
                &&& made[j].from_playlist
                &&& made[j].duration.len() == 0
                &&& made[j].handle_uuid.len() == 0
            }
        }),
    decreases items.len(),
{
    reveal(Seq::filter);
    if items.len() > 0 {
        law_playlist_follows_items(items.drop_last());
    }
}

} // verus!
