//! Spotify's playlist objects, as plain data.

use vstd::prelude::*;

verus! {

#[derive(Default, Debug, Clone, PartialEq)]
pub struct ExternalUrls {
    pub spotify: String,
}

#[derive(Default, Debug, Clone, PartialEq)]
pub struct Image {
    pub url: String,
    pub height: i64,
    pub width: i64,
}

#[derive(Default, Debug, Clone, PartialEq)]
pub struct Owner {
    pub href: String,
    pub id: String,
    pub type_field: String,
    pub uri: String,
    pub display_name: String,
    pub external_urls: ExternalUrls2,
}

#[derive(Default, Debug, Clone, PartialEq)]
pub struct ExternalUrls2 {
    pub spotify: String,
}

#[derive(Default, Debug, Clone, PartialEq)]
pub struct AddedBy {
    pub external_urls: ExternalUrls3,
    pub id: String,
    pub type_field: String,
    pub uri: String,
    pub href: String,
}

#[derive(Default, Debug, Clone, PartialEq)]
pub struct ExternalUrls3 {
    pub spotify: String,
}

#[derive(Default, Debug, Clone, PartialEq)]
pub struct Track {
    pub preview_url: String,
    pub available_markets: Vec<String>,
    pub explicit: bool,
    pub type_field: String,
    pub episode: bool,
    pub track: bool,
    pub album: Album,
    pub artists: Vec<Artist2>,
    pub disc_number: i64,
    pub track_number: i64,
    pub duration_ms: i64,
    pub external_ids: ExternalIds,
    pub external_urls: ExternalUrls7,
    pub href: String,
    pub id: String,
    pub name: String,
    pub popularity: i64,
    pub uri: String,
    pub is_local: bool,
}

#[derive(Default, Debug, Clone, PartialEq)]
pub struct Album {
    pub available_markets: Vec<String>,
    pub type_field: String,
    pub album_type: String,
    pub href: String,
    pub id: String,
    pub images: Vec<Image2>,
    pub name: String,
    pub release_date: String,
    pub release_date_precision: String,
    pub uri: String,
    pub artists: Vec<Artist>,
    pub external_urls: ExternalUrls5,
    pub total_tracks: i64,
}

#[derive(Default, Debug, Clone, PartialEq)]
pub struct Image2 {
    pub url: String,
    pub width: i64,
    pub height: i64,
}

#[derive(Default, Debug, Clone, PartialEq)]
pub struct Artist {
    pub external_urls: ExternalUrls4,
    pub href: String,
    pub id: String,
    pub name: String,
    pub type_field: String,
    pub uri: String,
}

#[derive(Default, Debug, Clone, PartialEq)]
pub struct ExternalUrls4 {
    pub spotify: String,
}

#[derive(Default, Debug, Clone, PartialEq)]
pub struct ExternalUrls5 {
    pub spotify: String,
}

#[derive(Default, Debug, Clone, PartialEq)]
pub struct Artist2 {
    pub external_urls: ExternalUrls6,
    pub href: String,
    pub id: String,
    pub name: String,
    pub type_field: String,
    pub uri: String,
}

#[derive(Default, Debug, Clone, PartialEq)]
pub struct ExternalUrls6 {
    pub spotify: String,
}

#[derive(Default, Debug, Clone, PartialEq)]
pub struct ExternalIds {
    pub isrc: String,
}

#[derive(Default, Debug, Clone, PartialEq)]
pub struct ExternalUrls7 {
    pub spotify: String,
}

} // verus!
