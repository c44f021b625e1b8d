use yt_yapper::queue::{MusicQueue, MusicQueueKey, QueueMessage, QueueNotice, QueueReply};
use yt_yapper::state::Track;

fn track(name: &str, can_scrobble: bool, from_playlist: bool) -> Track {
    Track {
        name: name.to_string(),
        handle_uuid: format!("uuid-{}", name),
        artist: format!("artist of {}", name),
        duration: "0:03:00".to_string(),
        thumbnail: String::new(),
        album: String::new(),
        can_scrobble,
        from_playlist,
    }
}

fn key(guild_id: u64, channel_id: u64) -> MusicQueueKey {
    MusicQueueKey { guild_id, channel_id }
}

fn names(q: &MusicQueue, k: MusicQueueKey) -> Option<Vec<String>> {
    q.get_queue(k).map(|d| d.iter().map(|t| t.name.clone()).collect())
}

#[test]
fn push_without_queue_changes_nothing() {
    let mut q = MusicQueue::default();
    assert_eq!(q.push(key(1, 2), track("a", true, false)), None);
    assert!(q.get_queue(key(1, 2)).is_none());
}

#[test]
fn add_queue_keeps_an_existing_queue() {
    let mut q = MusicQueue::default();
    q.add_queue(key(1, 2));
    assert_eq!(q.push(key(1, 2), track("a", true, false)), Some(1));
    q.add_queue(key(1, 2));
    assert_eq!(names(&q, key(1, 2)), Some(vec!["a".to_string()]));
}

#[test]
fn tracks_come_out_first_in_first_out() {
    let mut q = MusicQueue::default();
    let k = key(7, 8);
    q.add_queue(k);
    for n in ["a", "b", "c"] {
        q.push(k, track(n, true, false));
    }
    assert_eq!(q.front(k).map(|t| t.name), Some("a".to_string()));
    let order: Vec<String> = (0..3).map(|_| q.pop(k).unwrap().unwrap().name).collect();
    assert_eq!(order, vec!["a", "b", "c"]);
    assert!(matches!(q.pop(k), Some(None)));
    assert!(q.pop(key(9, 9)).is_none());
}

#[test]
fn keys_with_same_guild_or_channel_are_separate() {
    let mut q = MusicQueue::default();
    let (k1, k2, k3) = (key(1, 2), key(2, 1), key(1, 3));
    for k in [k1, k2, k3] {
        q.add_queue(k);
    }
    q.push(k1, track("one", true, false));
    q.push(k2, track("two", true, false));
    assert_eq!(names(&q, k1), Some(vec!["one".to_string()]));
    assert_eq!(names(&q, k2), Some(vec!["two".to_string()]));
    assert_eq!(names(&q, k3), Some(vec![]));
    let big = key(u64::MAX, u64::MAX);
    q.add_queue(big);
    q.push(big, track("max", false, false));
    assert_eq!(names(&q, big), Some(vec!["max".to_string()]));
    assert_eq!(names(&q, key(u64::MAX, 0)), None);
}

#[test]
fn clear_and_remove() {
    let mut q = MusicQueue::default();
    let k = key(3, 4);
    assert!(!q.clear(k));
    q.add_queue(k);
    for n in ["a", "b", "c"] {
        q.push(k, track(n, true, false));
    }
    assert_eq!(q.remove(k, 1).map(|t| t.name), Some("b".to_string()));
    assert!(q.remove(k, 2).is_none());
    assert!(q.remove(key(0, 0), 0).is_none());
    assert_eq!(names(&q, k), Some(vec!["a".to_string(), "c".to_string()]));
    assert!(q.clear(k));
    assert_eq!(names(&q, k), Some(vec![]));
    assert!(q.front(k).is_none());
}

#[test]
fn handle_push_announces_first_and_later_tracks() {
    let mut q = MusicQueue::default();
    let k = key(5, 6);
    let out = q.handle(QueueMessage::AddQueue { key: k });
    assert!(matches!(out.reply, QueueReply::Nothing) && matches!(out.notice, QueueNotice::Silent));
    let out = q.handle(QueueMessage::Push { key: k, value: track("a", true, false) });
    assert!(matches!(out.notice, QueueNotice::NowPlaying(ref t) if t.name == "a"));
    let out = q.handle(QueueMessage::Push { key: k, value: track("b", true, false) });
    assert!(matches!(out.notice, QueueNotice::Queued { position: 2, ref track } if track.name == "b"));
    let out = q.handle(QueueMessage::Push { key: k, value: track("c", true, true) });
    assert!(matches!(out.notice, QueueNotice::Silent));
    let out = q.handle(QueueMessage::Push { key: key(0, 0), value: track("d", true, false) });
    assert!(matches!(out.notice, QueueNotice::Silent) && !out.halted);
}

#[test]
fn handle_pop_moves_to_the_next_track_and_scrobbles() {
    let mut q = MusicQueue::default();
    let k = key(5, 6);
    q.add_queue(k);
    q.push(k, track("a", true, false));
    q.push(k, track("b", false, false));
    let out = q.handle(QueueMessage::Pop { key: k });
    assert!(matches!(out.reply, QueueReply::Track(Some(ref t)) if t.name == "a"));
    assert!(matches!(out.notice, QueueNotice::NowPlaying(ref t) if t.name == "b"));
    assert_eq!(out.scrobble.map(|t| t.name), Some("a".to_string()));
    assert!(!out.halted);
    let out = q.handle(QueueMessage::Pop { key: k });
    assert!(matches!(out.reply, QueueReply::Track(Some(ref t)) if t.name == "b"));
    assert!(matches!(out.notice, QueueNotice::Finished));
    assert!(out.scrobble.is_none());
    let out = q.handle(QueueMessage::Pop { key: k });
    assert!(matches!(out.reply, QueueReply::Track(None)));
    assert!(matches!(out.notice, QueueNotice::Finished));
    assert!(out.halted);
    let out = q.handle(QueueMessage::Pop { key: key(1, 1) });
    assert!(matches!(out.reply, QueueReply::Nothing) && matches!(out.notice, QueueNotice::Silent));
}

#[test]
fn handle_queries_and_clear() {
    let mut q = MusicQueue::default();
    let k = key(5, 6);
    let out = q.handle(QueueMessage::GetQueue { key: k });
    assert!(matches!(out.reply, QueueReply::Queue(None)));
    q.add_queue(k);
    q.push(k, track("a", true, false));
    q.push(k, track("b", true, false));
    let out = q.handle(QueueMessage::Front { key: k });
    assert!(matches!(out.reply, QueueReply::Track(Some(ref t)) if t.name == "a"));
    let out = q.handle(QueueMessage::GetQueue { key: k });
    assert!(matches!(out.reply, QueueReply::Queue(Some(ref d)) if d.len() == 2 && d[1].name == "b"));
    let out = q.handle(QueueMessage::Remove { key: k, index: 5 });
    assert!(matches!(out.reply, QueueReply::Track(None)));
    let out = q.handle(QueueMessage::Remove { key: k, index: 0 });
    assert!(matches!(out.reply, QueueReply::Track(Some(ref t)) if t.name == "a"));
    let out = q.handle(QueueMessage::Clear { key: k });
    assert!(matches!(out.notice, QueueNotice::Cleared));
    let out = q.handle(QueueMessage::Clear { key: key(0, 1) });
    assert!(matches!(out.notice, QueueNotice::Silent));
    assert_eq!(names(&q, k), Some(vec![]));
}

#[test]
fn push_then_pop_gives_the_track_back() {
    let mut q = MusicQueue::default();
    let k = key(11, 12);
    q.add_queue(k);
    let out = q.handle(QueueMessage::Push { key: k, value: track("solo", true, false) });
    assert!(matches!(out.notice, QueueNotice::NowPlaying(ref t) if t.name == "solo"));
    let out = q.handle(QueueMessage::Pop { key: k });
    assert!(matches!(out.reply, QueueReply::Track(Some(ref t)) if t.name == "solo" && t.handle_uuid == "uuid-solo"));
    assert!(matches!(out.notice, QueueNotice::Finished));
    assert!(out.scrobble.is_some() && !out.halted);
    assert_eq!(names(&q, k), Some(vec![]));
}

#[test]
fn push_and_pop_commute_on_a_non_empty_queue() {
    let k = key(20, 21);
    let mut first = MusicQueue::default();
    let mut second = MusicQueue::default();
    for q in [&mut first, &mut second] {
        q.add_queue(k);
        q.push(k, track("a", true, false));
        q.push(k, track("b", true, false));
    }
    first.push(k, track("c", true, false));
    first.pop(k);
    second.pop(k);
    second.push(k, track("c", true, false));
    assert_eq!(names(&first, k), names(&second, k));
    assert_eq!(names(&first, k), Some(vec!["b".to_string(), "c".to_string()]));
}
