//! The per-channel music queues and the requests that the queue task carries out on them.

use std::collections::HashMap;
use std::collections::VecDeque;
use vstd::prelude::*;

use crate::state::{Track, TrackView, track_views};

verus! {

broadcast use vstd::std_specs::hash::group_hash_axioms;

/// Where a queue lives: the guild and the voice channel in it.
#[derive(Debug, Clone, Copy, PartialEq, Eq, Structural, Hash)]
pub struct MusicQueueKey {
    pub guild_id: u64,
    pub channel_id: u64,
}

/// The number under which a key's queue is stored: the guild id in the high 64 bits and the
/// channel id in the low 64 bits.
pub open spec fn key_code(key: MusicQueueKey) -> u128 {
    (key.guild_id as int * 0x1_0000_0000_0000_0000 + key.channel_id as int) as u128
}

/// Distinct keys are stored under distinct numbers.
pub proof fn lemma_key_code_injective(a: MusicQueueKey, b: MusicQueueKey)
    requires
        key_code(a) == key_code(b),
    ensures
        a == b,
{
}

fn code_of(key: &MusicQueueKey) -> (code: u128)
    ensures
        code == key_code(*key),
{
    (key.guild_id as u128) * 0x1_0000_0000_0000_0000u128 + (key.channel_id as u128)
}

/// The queues by key, read from the stored map.
pub open spec fn queues_view(data: Map<u128, VecDeque<Track>>) -> Map<MusicQueueKey, Seq<TrackView>> {
    Map::new(
        |k: MusicQueueKey| data.contains_key(key_code(k)),
        |k: MusicQueueKey| track_views(data[key_code(k)]@),
    )
}

proof fn lemma_view_insert(data: Map<u128, VecDeque<Track>>, key: MusicQueueKey, q: VecDeque<Track>)
    ensures
        queues_view(data.insert(key_code(key), q)) == queues_view(data).insert(key, track_views(q@)),
{
    assert forall|k: MusicQueueKey| k != key implies key_code(k) != key_code(key) by {
        if key_code(k) == key_code(key) {
            lemma_key_code_injective(k, key);
        }
    }
    assert(queues_view(data.insert(key_code(key), q)) =~= queues_view(data).insert(key, track_views(q@)));
}

proof fn lemma_view_same(data: Map<u128, VecDeque<Track>>, key: MusicQueueKey)
    ensures
        queues_view(data).contains_key(key) == data.contains_key(key_code(key)),
        data.contains_key(key_code(key)) ==> queues_view(data)[key] == track_views(data[key_code(key)]@),
{
}

/// The queues after an `AddQueue`: an empty queue under `key` unless one is there.
pub open spec fn model_add(m: Map<MusicQueueKey, Seq<TrackView>>, key: MusicQueueKey) -> Map<MusicQueueKey, Seq<TrackView>> {
    if m.contains_key(key) {
        m
    } else {
        m.insert(key, Seq::empty())
    }
}

/// The queues after a `Push`: the track at the back of the queue under `key`, if there is one.
pub open spec fn model_push(m: Map<MusicQueueKey, Seq<TrackView>>, key: MusicQueueKey, t: TrackView) -> Map<MusicQueueKey, Seq<TrackView>> {
    if m.contains_key(key) {
        m.insert(key, m[key].push(t))
    } else {
        m
    }
}

/// The queues after a `Pop`: the front of the queue under `key` gone, if there is one.
pub open spec fn model_pop(m: Map<MusicQueueKey, Seq<TrackView>>, key: MusicQueueKey) -> Map<MusicQueueKey, Seq<TrackView>> {
    if m.contains_key(key) && m[key].len() > 0 {
        m.insert(key, m[key].drop_first())
    } else {
        m
    }
}

/// The queues after a `Clear`: the queue under `key` emptied, if there is one.
pub open spec fn model_clear(m: Map<MusicQueueKey, Seq<TrackView>>, key: MusicQueueKey) -> Map<MusicQueueKey, Seq<TrackView>> {
    if m.contains_key(key) {
        m.insert(key, Seq::empty())
    } else {
        m
    }
}

/// The queues after a `Remove`: the track at `index` gone from the queue under `key`, if both
/// are there.
pub open spec fn model_remove(m: Map<MusicQueueKey, Seq<TrackView>>, key: MusicQueueKey, index: int) -> Map<MusicQueueKey, Seq<TrackView>> {
    if m.contains_key(key) && 0 <= index < m[key].len() {
        m.insert(key, m[key].remove(index))
    } else {
        m
    }
}

/// The front of the queue under `key`, if there is a queue and it is not empty.
pub open spec fn model_front(m: Map<MusicQueueKey, Seq<TrackView>>, key: MusicQueueKey) -> Option<TrackView> {
    if m.contains_key(key) && m[key].len() > 0 {
        Some(m[key][0])
    } else {
        None
    }
}

/// The queues of all guilds' voice channels, each a first-in first-out list of tracks.
pub struct MusicQueue {
    data: HashMap<u128, VecDeque<Track>>,
}

impl View for MusicQueue {
    type V = Map<MusicQueueKey, Seq<TrackView>>;

    closed spec fn view(&self) -> Map<MusicQueueKey, Seq<TrackView>> {
        queues_view(self.data@)
    }
}

fn clone_tracks(q: &VecDeque<Track>) -> (copy: VecDeque<Track>)
    ensures
        track_views(copy@) == track_views(q@),
{
    let mut copy: VecDeque<Track> = VecDeque::new();
    let mut i: usize = 0;
    while i < q.len()
        invariant
            i <= q@.len(),
            track_views(copy@) == track_views(q@.take(i as int)),
        decreases q@.len() - i,
    {
        let ghost prev = copy@;
        let t = q[i].clone();
        assert(t@ == q@[i as int]@);
        copy.push_back(t);
        assert(track_views(copy@) =~= track_views(prev).push(q@[i as int]@));
        assert(q@.take(i + 1) =~= q@.take(i as int).push(q@[i as int]));
        i += 1;
        assert(track_views(copy@) =~= track_views(q@.take(i as int)));
    }
    assert(q@.take(q@.len() as int) =~= q@);
    copy
}

impl Default for MusicQueue {
    fn default() -> (q: Self)
        ensures
            q@ == Map::<MusicQueueKey, Seq<TrackView>>::empty(),
    {
        let q = MusicQueue { data: HashMap::new() };
        assert(q@ =~= Map::<MusicQueueKey, Seq<TrackView>>::empty());
        q
    }
}

impl MusicQueue {
    /// Makes sure a queue exists under `key`; an existing queue is kept as it is.
    pub fn add_queue(&mut self, key: MusicQueueKey)
        ensures
            final(self)@ == model_add(old(self)@, key),
            final(self)@.contains_key(key),
            old(self)@.contains_key(key) ==> final(self)@[key] == old(self)@[key],
            !old(self)@.contains_key(key) ==> final(self)@[key].len() == 0,
            final(self)@.remove(key) == old(self)@.remove(key),
    {
        let code = code_of(&key);
        proof {
            lemma_view_same(self.data@, key);
        }
        if !self.data.contains_key(&code) {
            let ghost before = self.data@;
            let fresh: VecDeque<Track> = VecDeque::new();
            let ghost fresh_copy = fresh;
            self.data.insert(code, fresh);
            proof {
                lemma_view_insert(before, key, fresh_copy);
                assert(track_views(fresh_copy@) =~= Seq::<TrackView>::empty());
            }
        }
    }

    /// Appends `value` to the queue under `key` and gives the queue's new length; without a
    /// queue under `key`, nothing changes and `None` comes back.
    pub fn push(&mut self, key: MusicQueueKey, value: Track) -> (len: Option<usize>)
        ensures
            final(self)@ == model_push(old(self)@, key, value@),
            final(self)@.contains_key(key) == old(self)@.contains_key(key),
            old(self)@.contains_key(key) ==> final(self)@[key] == old(self)@[key].push(value@),
            final(self)@.remove(key) == old(self)@.remove(key),
            match len {
                Some(n) => old(self)@.contains_key(key) && n == old(self)@[key].len() + 1,
                None => !old(self)@.contains_key(key),
            },
    {
        let code = code_of(&key);
        let ghost before = self.data@;
        proof {
            lemma_view_same(before, key);
        }
        match self.data.remove(&code) {
            None => None,
            Some(mut q) => {
                let ghost removed = self.data@;
                let ghost tv = value@;
                q.push_back(value);
                let n = q.len();
                self.data.insert(code, q);
                proof {
                    assert(removed.insert(code, q) =~= before.insert(code, q));
                    lemma_view_insert(before, key, q);
                    assert(track_views(q@) =~= track_views(before[code]@).push(tv));
                }
                Some(n)
            },
        }
    }

    /// Takes the front track off the queue under `key`: `None` without a queue, `Some(None)`
    /// for an empty queue.
    pub fn pop(&mut self, key: MusicQueueKey) -> (r: Option<Option<Track>>)
        ensures
            final(self)@ == model_pop(old(self)@, key),
            final(self)@.contains_key(key) == old(self)@.contains_key(key),
            old(self)@.contains_key(key) ==> final(self)@[key] == (if old(self)@[key].len() > 0 {
                old(self)@[key].subrange(1, old(self)@[key].len() as int)
            } else {
                old(self)@[key]
            }),
            final(self)@.remove(key) == old(self)@.remove(key),
            match r {
                None => !old(self)@.contains_key(key),
                Some(None) => old(self)@.contains_key(key) && old(self)@[key].len() == 0,
                Some(Some(t)) => old(self)@.contains_key(key) && old(self)@[key].len() > 0
                    && t@ == old(self)@[key][0],
            },
    {
        let code = code_of(&key);
        let ghost before = self.data@;
        proof {
            lemma_view_same(before, key);
        }
        match self.data.remove(&code) {
            None => None,
            Some(mut q) => {
                let ghost old_q = q@;
                let front = q.pop_front();
                self.data.insert(code, q);
                proof {
                    lemma_view_insert(before, key, q);
                    if old_q.len() > 0 {
                        assert(track_views(q@) =~= track_views(old_q).drop_first());
                    } else {
                        assert(track_views(q@) == queues_view(before)[key]);
                        assert(queues_view(before).insert(key, track_views(q@)) =~= queues_view(before));
                    }
                }
                Some(front)
            },
        }
    }

    /// A copy of the front track of the queue under `key`, if there is a queue and it is not
    /// empty.
    pub fn front(&self, key: MusicQueueKey) -> (r: Option<Track>)
        ensures
            match r {
                Some(t) => model_front(self@, key) == Some(t@) && self@.contains_key(key)
                    && self@[key].len() > 0 && t@ == self@[key][0],
                None => model_front(self@, key) is None && (!self@.contains_key(key) || self@[key].len() == 0),
            },
    {
        let code = code_of(&key);
        proof {
            lemma_view_same(self.data@, key);
        }
        match self.data.get(&code) {
            None => None,
            Some(q) => {
                if q.len() > 0 {
                    Some(q[0].clone())
                } else {
                    None
                }
            },
        }
    }

    /// Empties the queue under `key`, and tells whether there was one.
    pub fn clear(&mut self, key: MusicQueueKey) -> (found: bool)
        ensures
            final(self)@ == model_clear(old(self)@, key),
            final(self)@.contains_key(key) == old(self)@.contains_key(key),
            old(self)@.contains_key(key) ==> final(self)@[key].len() == 0,
            final(self)@.remove(key) == old(self)@.remove(key),
            found == old(self)@.contains_key(key),
    {
        let code = code_of(&key);
        let ghost before = self.data@;
        proof {
            lemma_view_same(before, key);
        }
        match self.data.remove(&code) {
            None => false,
            Some(mut q) => {
                q.clear();
                self.data.insert(code, q);
                proof {
                    lemma_view_insert(before, key, q);
                    assert(track_views(q@) =~= Seq::<TrackView>::empty());
                }
                true
            },
        }
    }

    /// A copy of the queue under `key`, if there is one.
    pub fn get_queue(&self, key: MusicQueueKey) -> (r: Option<VecDeque<Track>>)
        ensures
            match r {
                Some(q) => self@.contains_key(key) && track_views(q@) == self@[key],
                None => !self@.contains_key(key),
            },
    {
        let code = code_of(&key);
        proof {
            lemma_view_same(self.data@, key);
        }
        match self.data.get(&code) {
            None => None,
            Some(q) => Some(clone_tracks(q)),
        }
    }

    /// Takes the track at `index` out of the queue under `key`; `None` where there is no queue
    /// or no track at `index`.
    pub fn remove(&mut self, key: MusicQueueKey, index: usize) -> (r: Option<Track>)
        ensures
            final(self)@ == model_remove(old(self)@, key, index as int),
            final(self)@.contains_key(key) == old(self)@.contains_key(key),
            final(self)@.remove(key) == old(self)@.remove(key),
            old(self)@.contains_key(key) && index < old(self)@[key].len() ==> {
                &&& final(self)@[key].len() == old(self)@[key].len() - 1
                &&& final(self)@[key] == old(self)@[key].subrange(0, index as int)
                    + old(self)@[key].subrange(index + 1, old(self)@[key].len() as int)
                &&& r matches Some(t) && t@ == old(self)@[key][index as int]
            },
            old(self)@.contains_key(key) && index >= old(self)@[key].len() ==> final(self)@ == old(self)@ && r is None,
            match r {
                Some(t) => old(self)@.contains_key(key) && index < old(self)@[key].len()
                    && t@ == old(self)@[key][index as int],
                None => !old(self)@.contains_key(key) || index >= old(self)@[key].len(),
            },
    {
        let code = code_of(&key);
        let ghost before = self.data@;
        proof {
            lemma_view_same(before, key);
        }
        match self.data.remove(&code) {
            None => None,
            Some(mut q) => {
                let ghost old_q = q@;
                let taken = if index < q.len() {
                    q.remove(index)
                } else {
                    None
                };
                self.data.insert(code, q);
                proof {
                    lemma_view_insert(before, key, q);
                    if index < old_q.len() {
                        assert(track_views(q@) =~= track_views(old_q).remove(index as int));
                    } else {
                        assert(track_views(q@) == queues_view(before)[key]);
                        assert(queues_view(before).insert(key, track_views(q@)) =~= queues_view(before));
                    }
                }
                taken
            },
        }
    }
}

/// A request to the queue task.
pub enum QueueMessage {
    AddQueue { key: MusicQueueKey },
    Push { key: MusicQueueKey, value: Track },
    Pop { key: MusicQueueKey },
    Front { key: MusicQueueKey },
    Clear { key: MusicQueueKey },
    GetQueue { key: MusicQueueKey },
    Remove { key: MusicQueueKey, index: usize },
}

/// What goes back to the sender of a request: nothing, a track (or its absence), or a copy of
/// a queue (or its absence).
pub enum QueueReply {
    Nothing,
    Track(Option<Track>),
    Queue(Option<VecDeque<Track>>),
}

/// What the text channel is told after a request.
pub enum QueueNotice {
    /// Nothing is announced.
    Silent,
    /// The track starts playing now.
    NowPlaying(Track),
    /// The track waits at `position` (counted from 1, the playing track being 1).
    Queued { position: usize, track: Track },
    /// The queue has run out.
    Finished,
    /// The queue was emptied.
    Cleared,
}

/// Everything a request leads to: the reply, the announcement, the track to scrobble, and
/// whether the queue task stops (it does after a pop from an empty queue).
pub struct QueueOutcome {
    pub reply: QueueReply,
    pub notice: QueueNotice,
    pub scrobble: Option<Track>,
    pub halted: bool,
}

/// The contents of an optional track.
pub open spec fn track_opt_view(t: Option<Track>) -> Option<TrackView> {
    match t {
        Some(x) => Some(x@),
        None => None,
    }
}

/// An outcome with no reply, announcement or scrobble, that lets the task go on.
pub open spec fn quiet(out: QueueOutcome) -> bool {
    &&& out.reply is Nothing
    &&& out.notice is Silent
    &&& out.scrobble is None
    &&& !out.halted
}

/// The announcement after pushing `t` onto the queues `m` (as they were before) under `key`:
/// the first track of a queue plays now; a later one is announced at its position unless it
/// came from a playlist.
pub open spec fn push_notice(m: Map<MusicQueueKey, Seq<TrackView>>, key: MusicQueueKey, t: TrackView, notice: QueueNotice) -> bool {
    if !m.contains_key(key) {
        notice is Silent
    } else if m[key].len() == 0 {
        notice matches QueueNotice::NowPlaying(x) && x@ == t
    } else if !t.from_playlist {
        notice matches QueueNotice::Queued { position, track } && position == m[key].len() + 1 && track@ == t
    } else {
        notice is Silent
    }
}

/// The outcome of popping the queue under `key` from the queues `m` (as they were before):
/// the front track goes back; the next track is announced, or the end of the queue; the
/// popped track is scrobbled if it may be; popping an empty queue stops the task.
pub open spec fn pop_outcome(m: Map<MusicQueueKey, Seq<TrackView>>, key: MusicQueueKey, out: QueueOutcome) -> bool {
    if !m.contains_key(key) {
        quiet(out)
    } else {
        let q = m[key];
        &&& out.reply matches QueueReply::Track(r) && track_opt_view(r) == (if q.len() > 0 { Some(q[0]) } else { None::<TrackView> })
        &&& if q.len() <= 1 {
            out.notice is Finished
        } else {
            out.notice matches QueueNotice::NowPlaying(n) && n@ == q[1]
        }
        &&& if q.len() > 0 && q[0].can_scrobble {
            out.scrobble matches Some(s) && s@ == q[0]
        } else {
            out.scrobble is None
        }
        &&& out.halted == (q.len() == 0)
    }
}

/// The outcome of a request on the queues `m`, which become `m2`.
pub open spec fn handled(m: Map<MusicQueueKey, Seq<TrackView>>, m2: Map<MusicQueueKey, Seq<TrackView>>, msg: QueueMessage, out: QueueOutcome) -> bool {
    match msg {
        QueueMessage::AddQueue { key } => m2 == model_add(m, key) && quiet(out),
        QueueMessage::Push { key, value } => {
            &&& m2 == model_push(m, key, value@)
            &&& out.reply is Nothing
            &&& push_notice(m, key, value@, out.notice)
            &&& out.scrobble is None
            &&& !out.halted
        },
        QueueMessage::Pop { key } => m2 == model_pop(m, key) && pop_outcome(m, key, out),
        QueueMessage::Front { key } => {
            &&& m2 == m
            &&& out.reply matches QueueReply::Track(r) && track_opt_view(r) == model_front(m, key)
            &&& out.notice is Silent
            &&& out.scrobble is None
            &&& !out.halted
        },
        QueueMessage::Clear { key } => {
            &&& m2 == model_clear(m, key)
            &&& out.reply is Nothing
            &&& (if m.contains_key(key) { out.notice is Cleared } else { out.notice is Silent })
            &&& out.scrobble is None
            &&& !out.halted
        },
        QueueMessage::GetQueue { key } => {
            &&& m2 == m
            &&& out.reply matches QueueReply::Queue(r) && match r {
                Some(q) => m.contains_key(key) && track_views(q@) == m[key],
                None => !m.contains_key(key),
            }
            &&& out.notice is Silent
            &&& out.scrobble is None
            &&& !out.halted
        },
        QueueMessage::Remove { key, index } => {
            &&& m2 == model_remove(m, key, index as int)
            &&& out.reply matches QueueReply::Track(r) && track_opt_view(r) == (
                if m.contains_key(key) && index < m[key].len() { Some(m[key][index as int]) } else { None::<TrackView> })
            &&& out.notice is Silent
            &&& out.scrobble is None
            &&& !out.halted
        },
    }
}

impl MusicQueue {
    /// Carries out one request, as the queue task does for each message it receives.
    pub fn handle(&mut self, msg: QueueMessage) -> (out: QueueOutcome)
        ensures
            handled(old(self)@, final(self)@, msg, out),
    {
        match msg {
            QueueMessage::AddQueue { key } => {
                self.add_queue(key);
                QueueOutcome { reply: QueueReply::Nothing, notice: QueueNotice::Silent, scrobble: None, halted: false }
            },
            QueueMessage::Push { key, value } => {
                let shown = value.clone();
                let from_playlist = value.from_playlist;
                let notice = match self.push(key, value) {
                    None => QueueNotice::Silent,
                    Some(len) => {
                        if len == 1 {
                            QueueNotice::NowPlaying(shown)
                        } else if !from_playlist {
                            QueueNotice::Queued { position: len, track: shown }
                        } else {
                            QueueNotice::Silent
                        }
                    },
                };
                QueueOutcome { reply: QueueReply::Nothing, notice, scrobble: None, halted: false }
            },
            QueueMessage::Pop { key } => {
                let ghost before = self@;
                match self.pop(key) {
                    None => QueueOutcome { reply: QueueReply::Nothing, notice: QueueNotice::Silent, scrobble: None, halted: false },
                    Some(result) => {
                        let notice = match self.front(key) {
                            None => QueueNotice::Finished,
                            Some(next) => QueueNotice::NowPlaying(next),
                        };
                        proof {
                            if before[key].len() > 1 {
                                assert(self@[key] == before[key].drop_first());
                                assert(self@[key][0] == before[key][1]);
                            }
                        }
                        let (scrobble, halted) = match &result {
                            Some(t) => {
                                if t.can_scrobble {
                                    (Some(t.clone()), false)
                                } else {
                                    (None, false)
                                }
                            },
                            None => (None, true),
                        };
                        QueueOutcome { reply: QueueReply::Track(result), notice, scrobble, halted }
                    },
                }
            },
            QueueMessage::Front { key } => {
                let r = self.front(key);
                QueueOutcome { reply: QueueReply::Track(r), notice: QueueNotice::Silent, scrobble: None, halted: false }
            },
            QueueMessage::Clear { key } => {
                let found = self.clear(key);
                let notice = if found { QueueNotice::Cleared } else { QueueNotice::Silent };
                QueueOutcome { reply: QueueReply::Nothing, notice, scrobble: None, halted: false }
            },
            QueueMessage::GetQueue { key } => {
                let r = self.get_queue(key);
                QueueOutcome { reply: QueueReply::Queue(r), notice: QueueNotice::Silent, scrobble: None, halted: false }
            },
            QueueMessage::Remove { key, index } => {
                let r = self.remove(key, index);
                QueueOutcome { reply: QueueReply::Track(r), notice: QueueNotice::Silent, scrobble: None, halted: false }
            },
        }
    }
}

/// The queues after popping the queue under `key` `n` times.
pub open spec fn model_pop_n(m: Map<MusicQueueKey, Seq<TrackView>>, key: MusicQueueKey, n: nat) -> Map<MusicQueueKey, Seq<TrackView>>
    decreases n,
{
    if n == 0 {
        m
    } else {
        model_pop(model_pop_n(m, key, (n - 1) as nat), key)
    }
}

/// First in, first out: a pushed track reaches the front once every track queued before it
/// has been popped.
pub proof fn law_fifo(m: Map<MusicQueueKey, Seq<TrackView>>, key: MusicQueueKey, t: TrackView)
    requires
        m.contains_key(key),
    ensures
        model_front(model_pop_n(model_push(m, key, t), key, m[key].len()), key) == Some(t),
{
    let pushed = model_push(m, key, t);
    lemma_pop_n(pushed, key, m[key].len());
    assert(model_pop_n(pushed, key, m[key].len())[key] =~= seq![t]);
}

proof fn lemma_pop_n(m: Map<MusicQueueKey, Seq<TrackView>>, key: MusicQueueKey, n: nat)
    requires
        m.contains_key(key),
        n <= m[key].len(),
    ensures
        model_pop_n(m, key, n).contains_key(key),
        model_pop_n(m, key, n)[key] == m[key].subrange(n as int, m[key].len() as int),
    decreases n,
{
    if n == 0 {
        assert(m[key].subrange(0, m[key].len() as int) =~= m[key]);
    } else {
        lemma_pop_n(m, key, (n - 1) as nat);
        assert(m[key].subrange(n - 1, m[key].len() as int).drop_first() =~= m[key].subrange(n as int, m[key].len() as int));
    }
}

/// Pushing at the back and popping at the front of a non-empty queue can be done in either
/// order.
pub proof fn law_push_pop_commute(m: Map<MusicQueueKey, Seq<TrackView>>, key: MusicQueueKey, t: TrackView)
    requires
        m.contains_key(key),
        m[key].len() > 0,
    ensures
        model_pop(model_push(m, key, t), key) == model_push(model_pop(m, key), key, t),
{
    assert(m[key].push(t).drop_first() =~= m[key].drop_first().push(t));
    assert(model_pop(model_push(m, key, t), key) =~= model_push(model_pop(m, key), key, t));
}

/// Every request on one key leaves the queues under all other keys as they were.
pub proof fn law_other_keys_untouched(m: Map<MusicQueueKey, Seq<TrackView>>, key: MusicQueueKey, t: TrackView, index: int)
    ensures
        model_add(m, key).remove(key) == m.remove(key),
        model_push(m, key, t).remove(key) == m.remove(key),
        model_pop(m, key).remove(key) == m.remove(key),
        model_clear(m, key).remove(key) == m.remove(key),
        model_remove(m, key, index).remove(key) == m.remove(key),
{
    assert(model_add(m, key).remove(key) =~= m.remove(key));
    assert(model_push(m, key, t).remove(key) =~= m.remove(key));
    assert(model_pop(m, key).remove(key) =~= m.remove(key));
    assert(model_clear(m, key).remove(key) =~= m.remove(key));
    assert(model_remove(m, key, index).remove(key) =~= m.remove(key));
}

/// Adding a queue never disturbs one that is there, so adding twice is adding once.
pub proof fn law_add_keeps_queue(m: Map<MusicQueueKey, Seq<TrackView>>, key: MusicQueueKey)
    ensures
        m.contains_key(key) ==> model_add(m, key) == m,
        model_add(model_add(m, key), key) == model_add(m, key),
        model_add(m, key).contains_key(key),
{
}

/// After a clear there is nothing at the front, and the queue is still there.
pub proof fn law_clear_empties(m: Map<MusicQueueKey, Seq<TrackView>>, key: MusicQueueKey)
    ensures
        model_front(model_clear(m, key), key) is None,
        model_clear(m, key).contains_key(key) == m.contains_key(key),
{
}

/// Removing the track at index 0 is popping the queue.
pub proof fn law_remove_front_is_pop(m: Map<MusicQueueKey, Seq<TrackView>>, key: MusicQueueKey)
    ensures
        model_remove(m, key, 0) == model_pop(m, key),
{
    if m.contains_key(key) && m[key].len() > 0 {
        assert(m[key].remove(0) =~= m[key].drop_first());
    }
}

/// A track pushed onto an empty queue plays at once; popping it then gives it back, scrobbles
/// it if it may be scrobbled, and announces the end of the queue.
pub proof fn law_push_then_pop(
    m0: Map<MusicQueueKey, Seq<TrackView>>,
    m1: Map<MusicQueueKey, Seq<TrackView>>,
    m2: Map<MusicQueueKey, Seq<TrackView>>,
    key: MusicQueueKey,
    t: Track,
    o1: QueueOutcome,
    o2: QueueOutcome,
)
    requires
        m0.contains_key(key),
        m0[key].len() == 0,
        handled(m0, m1, QueueMessage::Push { key, value: t }, o1),
        handled(m1, m2, QueueMessage::Pop { key }, o2),
    ensures
        o1.notice matches QueueNotice::NowPlaying(x) && x@ == t@,
        o2.reply matches QueueReply::Track(r) && track_opt_view(r) == Some(t@),
        o2.notice is Finished,
        t.can_scrobble ==> (o2.scrobble matches Some(s) && s@ == t@),
        !o2.halted,
        m2 == m0,
{
    assert(m1[key] =~= seq![t@]);
    assert(m1[key].drop_first() =~= m0[key]);
    assert(m2 =~= m0);
}

/// A pop hands back the front track, leaves the rest of the queue in order, announces the
/// track that was second (now at the front) or the end of the queue, scrobbles the popped track
/// exactly when it may be scrobbled, and stops the task only when the queue was empty.
pub proof fn law_pop_advances_the_queue(
    m: Map<MusicQueueKey, Seq<TrackView>>,
    m2: Map<MusicQueueKey, Seq<TrackView>>,
    key: MusicQueueKey,
    out: QueueOutcome,
)
    requires
        handled(m, m2, QueueMessage::Pop { key }, out),
        m.contains_key(key),
    ensures
        m2.contains_key(key),
        m[key].len() > 0 ==> m2[key] == m[key].subrange(1, m[key].len() as int),
        m[key].len() == 0 ==> m2[key] == m[key],
        m2.remove(key) == m.remove(key),
        m[key].len() > 0 ==> (out.reply matches QueueReply::Track(r) && r matches Some(t) && t@ == m[key][0]),
        m[key].len() == 0 ==> (out.reply matches QueueReply::Track(r) && r is None),
        m[key].len() >= 2 ==> (out.notice matches QueueNotice::NowPlaying(n) && n@ == m[key][1] && n@ == m2[key][0]),
        m[key].len() <= 1 ==> out.notice is Finished,
        (m[key].len() > 0 && m[key][0].can_scrobble) ==> (out.scrobble matches Some(t) && t@ == m[key][0]),
        !(m[key].len() > 0 && m[key][0].can_scrobble) ==> out.scrobble is None,
        out.halted == (m[key].len() == 0),
{
    if m[key].len() >= 2 {
        assert(m2[key] =~= m[key].subrange(1, m[key].len() as int));
        assert(m2[key][0] == m[key][1]);
    }
    assert(m2.remove(key) =~= m.remove(key));
}

/// A push puts the track at the back of an existing queue and announces it: as playing now
/// when the queue was empty, else at its position (one past the old length) unless it came
/// from a playlist. Without a queue nothing changes and nothing is announced.
pub proof fn law_push_appends_and_announces(
    m: Map<MusicQueueKey, Seq<TrackView>>,
    m2: Map<MusicQueueKey, Seq<TrackView>>,
    key: MusicQueueKey,
    value: Track,
    out: QueueOutcome,
)
    requires
        handled(m, m2, QueueMessage::Push { key, value }, out),
    ensures
        m.contains_key(key) ==> m2[key] == m[key].push(value@) && m2[key].len() == m[key].len() + 1,
        !m.contains_key(key) ==> m2 == m && out.notice is Silent,
        m2.remove(key) == m.remove(key),
        m.contains_key(key) && m[key].len() == 0 ==> (out.notice matches QueueNotice::NowPlaying(n) && n@ == value@),
        m.contains_key(key) && m[key].len() > 0 && !value.from_playlist ==> (
            out.notice matches QueueNotice::Queued { position, track } && position == m[key].len() + 1 && track@ == value@),
        m.contains_key(key) && m[key].len() > 0 && value.from_playlist ==> out.notice is Silent,
        out.reply is Nothing && out.scrobble is None && !out.halted,
{
    assert(m2.remove(key) =~= m.remove(key));
}

/// Removing the track at a valid index hands back exactly that track and leaves the queue one
/// shorter: the tracks before it, then the tracks after it. Any other index changes nothing.
pub proof fn law_remove_takes_that_track(
    m: Map<MusicQueueKey, Seq<TrackView>>,
    m2: Map<MusicQueueKey, Seq<TrackView>>,
    key: MusicQueueKey,
    index: usize,
    out: QueueOutcome,
)
    requires
        handled(m, m2, QueueMessage::Remove { key, index }, out),
    ensures
        m.contains_key(key) && index < m[key].len() ==> {
            &&& m2[key].len() == m[key].len() - 1
            &&& m2[key] == m[key].subrange(0, index as int) + m[key].subrange(index + 1, m[key].len() as int)
            &&& out.reply matches QueueReply::Track(r) && r matches Some(t) && t@ == m[key][index as int]
        },
        !(m.contains_key(key) && index < m[key].len()) ==> m2 == m && (out.reply matches QueueReply::Track(r) && r is None),
        m2.remove(key) == m.remove(key),
{
    if m.contains_key(key) && index < m[key].len() {
        assert(m[key].remove(index as int) =~= m[key].subrange(0, index as int) + m[key].subrange(index + 1, m[key].len() as int));
    }
    assert(m2.remove(key) =~= m.remove(key));
}

/// A clear empties an existing queue, keeps it, and announces it; without a queue nothing
/// changes and nothing is announced.
pub proof fn law_clear_announces(
    m: Map<MusicQueueKey, Seq<TrackView>>,
    m2: Map<MusicQueueKey, Seq<TrackView>>,
    key: MusicQueueKey,
    out: QueueOutcome,
)
    requires
        handled(m, m2, QueueMessage::Clear { key }, out),
    ensures
        m.contains_key(key) ==> m2.contains_key(key) && m2[key].len() == 0 && out.notice is Cleared,
        !m.contains_key(key) ==> m2 == m && out.notice is Silent,
        m2.remove(key) == m.remove(key),
{
    assert(m2.remove(key) =~= m.remove(key));
}

/// `Front` and `GetQueue` change nothing and hand back the front track, or a copy of the whole
/// queue.
pub proof fn law_queries_read_the_queue(
    m: Map<MusicQueueKey, Seq<TrackView>>,
    m2: Map<MusicQueueKey, Seq<TrackView>>,
    m3: Map<MusicQueueKey, Seq<TrackView>>,
    key: MusicQueueKey,
    o1: QueueOutcome,
    o2: QueueOutcome,
)
    requires
        handled(m, m2, QueueMessage::Front { key }, o1),
        handled(m, m3, QueueMessage::GetQueue { key }, o2),
    ensures
        m2 == m,
        m3 == m,
        m.contains_key(key) && m[key].len() > 0 ==> (o1.reply matches QueueReply::Track(r) && r matches Some(t) && t@ == m[key][0]),
        !(m.contains_key(key) && m[key].len() > 0) ==> (o1.reply matches QueueReply::Track(r) && r is None),
        m.contains_key(key) ==> (o2.reply matches QueueReply::Queue(r) && r matches Some(q)
            && q@.len() == m[key].len() && forall|i: int| 0 <= i < q@.len() ==> (#[trigger] q@[i])@ == m[key][i]),
        !m.contains_key(key) ==> (o2.reply matches QueueReply::Queue(r) && r is None),
{
    if m.contains_key(key) {
        if let QueueReply::Queue(Some(q)) = o2.reply {
            assert forall|i: int| 0 <= i < q@.len() implies (#[trigger] q@[i])@ == m[key][i] by {
                assert(track_views(q@)[i] == q@[i]@);
            }
        }
    }
}

} // verus!
