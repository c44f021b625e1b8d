//! How a channel announces what happens to its queue.

use std::collections::VecDeque;
use vstd::prelude::*;

use crate::queue::{MusicQueueKey, QueueNotice};
use crate::state::{Track, TrackView};

verus! {

/// What happened to a queue, with the queue as it is afterwards.
pub enum QueueEvents {
    QueueCreated(MusicQueueKey),
    TrackPushed(MusicQueueKey, VecDeque<Track>),
    TrackPopped(MusicQueueKey, VecDeque<Track>),
    QueueCleared(MusicQueueKey),
}

/// How a channel's listener answers a queue event: a log line for a created queue, or an
/// announcement (silent for other channels' queues).
pub enum QueueEventReaction {
    Log(MusicQueueKey),
    Announce(QueueNotice),
}

/// Whether an announcement shows exactly `t` as starting now.
pub open spec fn now_playing(notice: QueueNotice, t: TrackView) -> bool {
    notice matches QueueNotice::NowPlaying(x) && x@ == t
}

/// How the listener of the queue under `listener` answers `event`: a pushed track plays now if
/// it is the only one, else it is announced at its position; after a pop the new front plays
/// now, or the end is announced; a clear is announced.
pub fn react(listener: MusicQueueKey, event: &QueueEvents) -> (r: QueueEventReaction)
    requires
        *event matches QueueEvents::TrackPushed(k, q) ==> (k == listener ==> q.len() > 0),
    ensures
        match *event {
            QueueEvents::QueueCreated(k) => r matches QueueEventReaction::Log(x) && x == k,
            QueueEvents::TrackPushed(k, q) => r matches QueueEventReaction::Announce(n) && if k != listener {
                n is Silent
            } else if q.len() == 1 {
                now_playing(n, q@[0]@) && (n matches QueueNotice::NowPlaying(x) && x@ == q@[0]@)
            } else {
                n matches QueueNotice::Queued { position, track } && position == q.len() && track@ == q@[q.len() - 1]@
            },
            QueueEvents::TrackPopped(k, q) => r matches QueueEventReaction::Announce(n) && if k != listener {
                n is Silent
            } else if q.len() == 0 {
                n is Finished
            } else {
                now_playing(n, q@[0]@) && (n matches QueueNotice::NowPlaying(x) && x@ == q@[0]@)
            },
            QueueEvents::QueueCleared(k) => r matches QueueEventReaction::Announce(n) && if k != listener {
                n is Silent
            } else {
                n is Cleared
            },
        },
{
    match event {
        QueueEvents::QueueCreated(k) => QueueEventReaction::Log(*k),
        QueueEvents::TrackPushed(k, q) => {
            if *k != listener {
                QueueEventReaction::Announce(QueueNotice::Silent)
            } else {
                let len = q.len();
                let track = q[len - 1].clone();
                if len == 1 {
                    QueueEventReaction::Announce(QueueNotice::NowPlaying(track))
                } else {
                    QueueEventReaction::Announce(QueueNotice::Queued { position: len, track })
                }
            }
        },
        QueueEvents::TrackPopped(k, q) => {
            if *k != listener {
                QueueEventReaction::Announce(QueueNotice::Silent)
            } else if q.len() == 0 {
                QueueEventReaction::Announce(QueueNotice::Finished)
            } else {
                QueueEventReaction::Announce(QueueNotice::NowPlaying(q[0].clone()))
            }
        },
        QueueEvents::QueueCleared(k) => {
            if *k != listener {
                QueueEventReaction::Announce(QueueNotice::Silent)
            } else {
                QueueEventReaction::Announce(QueueNotice::Cleared)
            }
        },
    }
}

} // verus!
