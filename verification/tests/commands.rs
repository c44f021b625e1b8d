use std::collections::VecDeque;
use yt_yapper::commands::pause::{mute_sync, pause_action, resume_action, PauseAction, PlayMode};
use yt_yapper::commands::seek::seek_within;
use yt_yapper::commands::skip::{skip_count, skip_reports, skip_scrobble, skipped_message};
use yt_yapper::commands::utils::{duration_to_time, linked_users};
use yt_yapper::events::track_error_notifier::ends_front;
use yt_yapper::events::track_queue_event::{react, QueueEventReaction, QueueEvents};
use yt_yapper::persistence::entities::user::User;
use yt_yapper::queue::{MusicQueueKey, QueueNotice};
use yt_yapper::scrobbler::Scrobbler;
use yt_yapper::spotify::SpotifyClient;
use yt_yapper::state::Track;

fn named(name: &str) -> Track {
    Track { name: name.to_string(), handle_uuid: format!("h-{}", name), ..Default::default() }
}

#[test]
fn skip_counts() {
    assert_eq!(skip_count(None, 0), None);
    assert_eq!(skip_count(Some(3), 0), None);
    assert_eq!(skip_count(None, 5), Some(1));
    assert_eq!(skip_count(Some(3), 5), Some(3));
    assert_eq!(skip_count(Some(9), 5), Some(5));
    assert_eq!(skip_count(Some(5), 5), Some(5));
    assert_eq!(skip_count(Some(0), 5), Some(0));
}

#[test]
fn skip_messages() {
    assert_eq!(skipped_message(1), "\u{23E9} Skipped 1 track");
    assert_eq!(skipped_message(0), "\u{23E9} Skipped 0 track");
    assert_eq!(skipped_message(12), "\u{23E9} Skipped 12 tracks");
}

#[test]
fn skip_scrobbles_without_album() {
    let t = Track { name: "N".to_string(), artist: "A".to_string(), album: "Al".to_string(), ..Default::default() };
    let s = skip_scrobble(&t);
    assert_eq!((s.artist.as_str(), s.track.as_str(), s.album.as_str()), ("A", "N", ""));
}

#[test]
fn seek_stays_within_the_track() {
    let d = duration_to_time(215);
    assert!(seek_within(0, &d));
    assert!(seek_within(215, &d));
    assert!(!seek_within(216, &d));
    assert!(seek_within(30, &"1:00".to_string()));
}

#[test]
fn pause_only_pauses() {
    assert_eq!(pause_action(PlayMode::Play), PauseAction::Pause);
    for m in [PlayMode::Pause, PlayMode::Stop, PlayMode::End, PlayMode::Errored] {
        assert_eq!(pause_action(m), PauseAction::Keep);
    }
}

#[test]
fn resume_only_resumes_a_paused_track() {
    assert_eq!(resume_action(PlayMode::Pause), PauseAction::Resume);
    for m in [PlayMode::Play, PlayMode::Stop, PlayMode::End, PlayMode::Errored] {
        assert_eq!(resume_action(m), PauseAction::Keep);
    }
}

#[test]
fn skip_reports_the_skipped_and_the_next_track() {
    let old = Track { name: "Old".to_string(), artist: "A".to_string(), album: "X".to_string(), can_scrobble: true, ..Default::default() };
    let next = Some(Track { name: "New".to_string(), artist: "B".to_string(), can_scrobble: true, ..Default::default() });
    let r = skip_reports(1, false, &old, &next);
    let s = r.scrobble.unwrap();
    assert_eq!((s.artist.as_str(), s.track.as_str(), s.album.as_str()), ("A", "Old", ""));
    assert_eq!(r.now_playing.unwrap().track, "New");
    let r = skip_reports(2, true, &old, &next);
    assert!(r.scrobble.is_none() && r.now_playing.is_some());
    let r = skip_reports(0, false, &old, &next);
    assert!(r.scrobble.is_none() && r.now_playing.is_none());
    let quiet = Track { can_scrobble: false, ..old.clone() };
    let r = skip_reports(1, false, &quiet, &None);
    assert!(r.scrobble.is_none() && r.now_playing.is_none());
}

#[test]
fn a_track_ends_when_its_player_ends_or_stops() {
    let front = Some(named("a"));
    assert!(ends_front(&front, &"h-a".to_string(), PlayMode::End));
    assert!(ends_front(&front, &"h-a".to_string(), PlayMode::Stop));
    assert!(!ends_front(&front, &"h-a".to_string(), PlayMode::Play));
    assert!(!ends_front(&front, &"h-b".to_string(), PlayMode::End));
    assert!(!ends_front(&None, &"h-a".to_string(), PlayMode::End));
}

#[test]
fn queue_events_are_announced_to_their_channel() {
    let mine = MusicQueueKey { guild_id: 1, channel_id: 2 };
    let other = MusicQueueKey { guild_id: 1, channel_id: 3 };
    assert!(matches!(react(mine, &QueueEvents::QueueCreated(other)), QueueEventReaction::Log(k) if k == other));
    let one: VecDeque<Track> = vec![named("a")].into_iter().collect();
    let two: VecDeque<Track> = vec![named("a"), named("b")].into_iter().collect();
    assert!(matches!(react(mine, &QueueEvents::TrackPushed(mine, one.clone())), QueueEventReaction::Announce(QueueNotice::NowPlaying(ref t)) if t.name == "a"));
    assert!(matches!(react(mine, &QueueEvents::TrackPushed(mine, two.clone())), QueueEventReaction::Announce(QueueNotice::Queued { position: 2, ref track }) if track.name == "b"));
    assert!(matches!(react(mine, &QueueEvents::TrackPushed(other, two.clone())), QueueEventReaction::Announce(QueueNotice::Silent)));
    assert!(matches!(react(mine, &QueueEvents::TrackPopped(mine, VecDeque::new())), QueueEventReaction::Announce(QueueNotice::Finished)));
    assert!(matches!(react(mine, &QueueEvents::TrackPopped(mine, two)), QueueEventReaction::Announce(QueueNotice::NowPlaying(ref t)) if t.name == "a"));
    assert!(matches!(react(mine, &QueueEvents::QueueCleared(mine)), QueueEventReaction::Announce(QueueNotice::Cleared)));
    assert!(matches!(react(mine, &QueueEvents::QueueCleared(other)), QueueEventReaction::Announce(QueueNotice::Silent)));
}

#[test]
fn credentials_and_users() {
    let s = Scrobbler::new("key".to_string(), "secret".to_string());
    assert_eq!((s.api_key().as_str(), s.api_secret().as_str()), ("key", "secret"));
    let info = s.track_to_scrobble(&"Art".to_string(), &"Trk".to_string(), &"Alb".to_string());
    assert_eq!((info.artist.as_str(), info.track.as_str(), info.album.as_str()), ("Art", "Trk", "Alb"));
    let c = SpotifyClient::new("id".to_string(), "sec".to_string());
    assert_eq!((c.client_id().as_str(), c.client_secret().as_str()), ("id", "sec"));
    let u = User::new(-42, "tok".to_string());
    assert_eq!((u.id, u.token.as_str()), (-42, "tok"));
}

#[test]
fn mute_follows_the_bot_voice_state() {
    assert_eq!(mute_sync(true, true, true), Some(PauseAction::Pause));
    assert_eq!(mute_sync(true, true, false), Some(PauseAction::Resume));
    assert_eq!(mute_sync(false, true, true), None);
    assert_eq!(mute_sync(true, false, true), None);
}

#[test]
fn only_linked_members_are_scrobbled_for() {
    let users = vec![None, Some(User::new(1, "a".to_string())), None, Some(User::new(2, "b".to_string()))];
    let linked = linked_users(&users);
    let keys: Vec<(i64, &str)> = linked.iter().map(|u| (u.id, u.token.as_str())).collect();
    assert_eq!(keys, vec![(1, "a"), (2, "b")]);
    assert!(linked_users(&vec![None, None]).is_empty());
}
