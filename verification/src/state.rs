//! The tracks that the queues hold.

use vstd::prelude::*;

verus! {

/// A track that a guild's queue holds: what is shown of it, the handle of the
/// player that plays it, and whether it is scrobbled and whether it came from a playlist.
#[derive(Debug)]
pub struct Track {
    pub name: String,
    pub handle_uuid: String,
    pub artist: String,
    pub duration: String,
    pub thumbnail: String,
    pub album: String,
    pub can_scrobble: bool,
    pub from_playlist: bool,
}

/// The contents of a [`Track`].
pub struct TrackView {
    pub name: Seq<char>,
    pub handle_uuid: Seq<char>,
    pub artist: Seq<char>,
    pub duration: Seq<char>,
    pub thumbnail: Seq<char>,
    pub album: Seq<char>,
    pub can_scrobble: bool,
    pub from_playlist: bool,
}

impl View for Track {
    type V = TrackView;

    open spec fn view(&self) -> TrackView {
        TrackView {
            name: self.name@,
            handle_uuid: self.handle_uuid@,
            artist: self.artist@,
            duration: self.duration@,
            thumbnail: self.thumbnail@,
            album: self.album@,
            can_scrobble: self.can_scrobble,
            from_playlist: self.from_playlist,
        }
    }
}

/// The contents of a sequence of tracks.
pub open spec fn track_views(s: Seq<Track>) -> Seq<TrackView> {
    s.map_values(|t: Track| t@)
}

/// The empty track: no text, neither scrobbled nor from a playlist.
pub open spec fn empty_track() -> TrackView {
    TrackView {
        name: Seq::empty(),
        handle_uuid: Seq::empty(),
        artist: Seq::empty(),
        duration: Seq::empty(),
        thumbnail: Seq::empty(),
        album: Seq::empty(),
        can_scrobble: false,
        from_playlist: false,
    }
}

impl Clone for Track {
    fn clone(&self) -> (copy: Self)
        ensures
            copy@ == self@,
    {
        Track {
            name: self.name.clone(),
            handle_uuid: self.handle_uuid.clone(),
            artist: self.artist.clone(),
            duration: self.duration.clone(),
            thumbnail: self.thumbnail.clone(),
            album: self.album.clone(),
            can_scrobble: self.can_scrobble,
            from_playlist: self.from_playlist,
        }
    }
}

impl Default for Track {
    fn default() -> (t: Self)
        ensures
            t@ == empty_track(),
    {
        Track {
            name: String::new(),
            handle_uuid: String::new(),
            artist: String::new(),
            duration: String::new(),
            thumbnail: String::new(),
            album: String::new(),
            can_scrobble: false,
            from_playlist: false,
        }
    }
}

} // verus!
