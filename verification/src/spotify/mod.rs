//! Spotify credentials.

use vstd::prelude::*;

verus! {

/// The Spotify application credentials under which the catalogue is searched.
#[derive(Debug)]
pub struct SpotifyClient {
    client_id: String,
    client_secret: String,
}

impl SpotifyClient {
    /// The client id and secret, as given to [`SpotifyClient::new`].
    pub closed spec fn credentials(&self) -> (Seq<char>, Seq<char>) {
        (self.client_id@, self.client_secret@)
    }

    pub fn new(client_id: String, client_secret: String) -> (c: Self)
        ensures
            c.credentials() == (client_id@, client_secret@),
    {
        Self { client_id, client_secret }
    }

    /// The client id.
    pub fn client_id(&self) -> (id: &String)
        ensures
            id@ == self.credentials().0,
    {
        &self.client_id
    }

    /// The client secret.
    pub fn client_secret(&self) -> (secret: &String)
        ensures
            secret@ == self.credentials().1,
    {
        &self.client_secret
    }
}

} // verus!
