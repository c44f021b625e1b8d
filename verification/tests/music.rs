use yt_yapper::commands::music::{
    album_tracks, join_words, music_request, plan_request, playlist_tracks, search_track,
    track_from_song, with_playback, youtube_query, AlbumStep, MusicRequest, SpotifyAlbumTrack,
    SpotifyTrackInfo,
};
use yt_yapper::state::Track;

fn words(ws: &[&str]) -> Vec<String> {
    ws.iter().map(|w| w.to_string()).collect()
}

fn song(name: &str) -> SpotifyTrackInfo {
    SpotifyTrackInfo {
        name: name.to_string(),
        artists: vec!["First".to_string(), "Second".to_string()],
        album_name: "Record".to_string(),
        album_images: vec!["https://img/1".to_string(), "https://img/2".to_string()],
    }
}

#[test]
fn plain_words_are_searched() {
    match music_request(&words(&["never", "gonna", "give"])) {
        Some(MusicRequest::Search(q)) => assert_eq!(q, "never gonna give"),
        _ => panic!("expected a search"),
    }
    match music_request(&words(&["one"])) {
        Some(MusicRequest::Search(q)) => assert_eq!(q, "one"),
        _ => panic!("expected a search"),
    }
}

#[test]
fn playlist_link_queues_the_playlist_alone() {
    let r = music_request(&words(&["https://open.spotify.com/playlist/37i9dQZF1DXcBWIGoYBM5M?si=a1b2c3"]));
    match r {
        Some(MusicRequest::Link { playlist_id, album }) => {
            assert_eq!(playlist_id, Some("37i9dQZF1DXcBWIGoYBM5M".to_string()));
            assert!(matches!(album, AlbumStep::Skip));
        }
        _ => panic!("expected a link"),
    }
}

#[test]
fn album_link_queues_the_album() {
    let r = music_request(&words(&["https://open.spotify.com/album/4aawyAB9vmqN3uQ7FjRGTy", "extra"]));
    match r {
        Some(MusicRequest::Link { playlist_id, album }) => {
            assert_eq!(playlist_id, None);
            assert!(matches!(album, AlbumStep::Album(ref id) if id == "4aawyAB9vmqN3uQ7FjRGTy"));
        }
        _ => panic!("expected a link"),
    }
}

#[test]
fn other_links_are_unsupported() {
    let r = music_request(&words(&["https://www.youtube.com/watch?v=dQw4w9WgXcQ"]));
    assert!(matches!(r, Some(MusicRequest::Link { playlist_id: None, album: AlbumStep::Unsupported })));
    let r = music_request(&words(&["httpnothing"]));
    assert!(matches!(r, Some(MusicRequest::Link { playlist_id: None, album: AlbumStep::Unsupported })));
}

#[test]
fn a_match_without_the_prefix_stops_the_command() {
    let r = music_request(&words(&["http://x/https://open.spotify.com/playlist/abc"]));
    assert!(r.is_none());
    let r = music_request(&words(&["http://x/https://open.spotify.com/album/abc"]));
    assert!(matches!(r, Some(MusicRequest::Link { playlist_id: None, album: AlbumStep::Abort })));
}

#[test]
fn plan_follows_the_pattern_answers() {
    let w = words(&["https://open.spotify.com/album/xyz?si=ff"]);
    assert!(plan_request(&w, None, Some(true)).is_none());
    assert!(matches!(plan_request(&w, Some(false), None), Some(MusicRequest::Link { playlist_id: None, album: AlbumStep::Abort })));
    assert!(matches!(plan_request(&w, Some(false), Some(true)), Some(MusicRequest::Link { playlist_id: None, album: AlbumStep::Album(ref id) }) if id == "xyz"));
    assert!(plan_request(&w, Some(true), Some(true)).is_none());
    let pl = words(&["https://open.spotify.com/playlist/abc"]);
    for am in [None, Some(false), Some(true)] {
        assert!(matches!(plan_request(&pl, Some(true), am), Some(MusicRequest::Link { playlist_id: Some(ref id), album: AlbumStep::Skip }) if id == "abc"));
    }
    let s = words(&["hello", "world"]);
    assert!(matches!(plan_request(&s, None, None), Some(MusicRequest::Search(ref q)) if q == "hello world"));
}

#[test]
fn joins_with_single_spaces() {
    assert_eq!(join_words(&words(&[])), "");
    assert_eq!(join_words(&words(&["a", "", "b"])), "a  b");
}

#[test]
fn found_tracks_take_the_first_artist_and_image() {
    let t = track_from_song(&song("Tune"), true);
    assert_eq!((t.name.as_str(), t.artist.as_str(), t.album.as_str(), t.thumbnail.as_str()), ("Tune", "First", "Record", "https://img/1"));
    assert!(t.can_scrobble && t.from_playlist);
    assert!(t.duration.is_empty() && t.handle_uuid.is_empty());
    let t = search_track(&Some(song("Hit")));
    assert_eq!(t.name, "Hit");
    assert!(!t.from_playlist);
    let t = search_track(&None);
    assert!(t.name.is_empty() && t.artist.is_empty() && !t.can_scrobble && !t.from_playlist);
}

#[test]
fn playlist_leaves_out_episodes() {
    let tracks = playlist_tracks(&vec![Some(song("a")), None, Some(song("b")), None]);
    let names: Vec<&str> = tracks.iter().map(|t| t.name.as_str()).collect();
    assert_eq!(names, vec!["a", "b"]);
    assert!(tracks.iter().all(|t| t.from_playlist && t.can_scrobble));
}

#[test]
fn album_tracks_carry_the_album() {
    let songs = vec![
        SpotifyAlbumTrack { name: "x".to_string(), artists: vec!["X1".to_string(), "X2".to_string()] },
        SpotifyAlbumTrack { name: "y".to_string(), artists: vec!["Y1".to_string()] },
    ];
    let tracks = album_tracks(&"LP".to_string(), &vec!["cover".to_string()], &songs);
    assert_eq!(tracks.len(), 2);
    assert_eq!((tracks[0].artist.as_str(), tracks[0].album.as_str(), tracks[0].thumbnail.as_str()), ("X1", "LP", "cover"));
    assert_eq!(tracks[1].name, "y");
    assert!(tracks[1].from_playlist);
}

#[test]
fn youtube_query_and_playback() {
    let t = Track { name: "Song".to_string(), artist: "Band".to_string(), ..Default::default() };
    assert_eq!(youtube_query(&t), "Song - Band");
    assert_eq!(youtube_query(&Track::default()), " - ");
    let t = with_playback(t, Some(215), "h-1".to_string());
    assert_eq!(t.duration, "0:03:35");
    assert_eq!(t.handle_uuid, "h-1");
    assert_eq!(t.name, "Song");
    let t = with_playback(t, None, "h-2".to_string());
    assert_eq!(t.duration, "0:00:00");
}
