//! Last.fm credentials and what is scrobbled of a track.

use vstd::prelude::*;

verus! {

/// The Last.fm application credentials under which tracks are scrobbled.
#[derive(Debug, Clone)]
pub struct Scrobbler {
    api_key: String,
    api_secret: String,
}

/// What is sent to Last.fm about one listen: artist, track and album names.
#[derive(Debug, Clone)]
pub struct ScrobbleInfo {
    pub artist: String,
    pub track: String,
    pub album: String,
}

impl Scrobbler {
    /// The API key and secret, as given to [`Scrobbler::new`].
    pub closed spec fn credentials(&self) -> (Seq<char>, Seq<char>) {
        (self.api_key@, self.api_secret@)
    }

    pub fn new(api_key: String, api_secret: String) -> (s: Self)
        ensures
            s.credentials() == (api_key@, api_secret@),
    {
        Scrobbler { api_key, api_secret }
    }

    /// The API key.
    pub fn api_key(&self) -> (k: &String)
        ensures
            k@ == self.credentials().0,
    {
        &self.api_key
    }

    /// The API secret.
    pub fn api_secret(&self) -> (k: &String)
        ensures
            k@ == self.credentials().1,
    {
        &self.api_secret
    }

    /// The listen of `track` by `artist` from `album`.
    pub fn track_to_scrobble(&self, artist: &String, track: &String, album: &String) -> (s: ScrobbleInfo)
        ensures
            s.artist@ == artist@,
            s.track@ == track@,
            s.album@ == album@,
    {
        ScrobbleInfo { artist: artist.clone(), track: track.clone(), album: album.clone() }
    }
}

} // verus!
