//! Per-guild playback state and the decisions of its worker.
//!
//! One guild owns one [`ChannelMediaPlayer`]: a running flag that is flipped
//! exactly once at shutdown, the entry currently playing (with the engine
//! handle that controls it, kept as a plain token), and the ordered queue of
//! pending entries.  Entries are appended at one end and the worker removes
//! them from the other, so playback is strictly first-in-first-out.
//!
//! The worker's blocking points (waiting for the queue, waiting for a track
//! to end) and the calls into the playback engine are outside work; the
//! decisions between them are the functions here, each a small step from
//! state and event to next state and action.

use vstd::prelude::*;

use crate::media_info::{empty_info_view, MediaInfo, MediaInfoView};
use crate::message_context::MessageContext;
use std::collections::VecDeque;

verus! {

/// One pending request: the track to play and where to report its fate.
pub struct MediaItem {
    pub info: MediaInfo,
    pub message_ctx: MessageContext,
}

/// Mathematical value of a [`MediaItem`].
#[verifier::ext_equal]
pub struct MediaItemView {
    pub info: MediaInfoView,
    pub message_ctx: MessageContext,
}

impl View for MediaItem {
    type V = MediaItemView;

    open spec fn view(&self) -> MediaItemView {
        MediaItemView { info: self.info@, message_ctx: self.message_ctx }
    }
}

/// A queue slot: a real track, or the sentinel that tells the worker to stop.
/// The sentinel is never played.
pub enum QueueEntry {
    Track(MediaItem),
    Shutdown,
}

/// Mathematical value of a [`QueueEntry`].
pub enum QueueEntryView {
    Track(MediaItemView),
    Shutdown,
}

impl View for QueueEntry {
    type V = QueueEntryView;

    open spec fn view(&self) -> QueueEntryView {
        match self {
            QueueEntry::Track(item) => QueueEntryView::Track(item@),
            QueueEntry::Shutdown => QueueEntryView::Shutdown,
        }
    }
}

/// The unit of mutual exclusion for one guild: the running flag, the entry
/// now playing (with its engine-handle token), and the pending entries in
/// play order (index 0 plays next; new entries are pushed at the end).
pub struct MediaQueue {
    pub running_state: bool,
    pub now_playing: Option<(MediaItem, u64)>,
    pub queue: VecDeque<QueueEntry>,
}

/// Mathematical value of a [`MediaQueue`].
#[verifier::ext_equal]
pub struct MediaQueueView {
    pub running_state: bool,
    pub now_playing: Option<(MediaItemView, u64)>,
    pub queue: Seq<QueueEntryView>,
}

impl View for MediaQueue {
    type V = MediaQueueView;

    open spec fn view(&self) -> MediaQueueView {
        MediaQueueView {
            running_state: self.running_state,
            now_playing: match self.now_playing {
                Some((item, handle)) => Some((item@, handle)),
                None => None,
            },
            queue: self.queue@.map_values(|e: QueueEntry| e@),
        }
    }
}

/// Everything the scheduler keeps for one guild.
pub struct ChannelMediaPlayer {
    pub guild_id: u64,
    pub media_queue: MediaQueue,
}

/// What an operation can fail with.
#[derive(Clone, Copy, PartialEq, Eq, Structural, Debug)]
pub enum PlayerError {
    /// No player exists for the guild.
    NotConnected,
    /// A player already exists for the guild.
    AlreadyConnected,
    /// Seek was asked for while nothing is playing.
    NotPlaying,
    /// Seek target outside `0 <= target < duration`.
    SeekOutOfRange,
    /// The engine handle could not report the playback position.
    PlaybackQueryFailed,
    /// The playback source for a queued track could not be opened.
    SourceOpenFailed,
    /// The end-of-track watcher could not be registered.
    EngineRegistrationFailed,
}

impl PlayerError {
    /// The human-readable text for each failure.
    pub open spec fn message_view(self) -> Seq<char> {
        match self {
            PlayerError::NotConnected => "Not connected to a voice channel!"@,
            PlayerError::AlreadyConnected => "Already connected to a voice channel in this server!"@,
            PlayerError::NotPlaying => "Cannot seek, not playing a song."@,
            PlayerError::SeekOutOfRange => "Unable to seek track: time out of range"@,
            PlayerError::PlaybackQueryFailed => "Unable to get current song info from Track"@,
            PlayerError::SourceOpenFailed => "Error playing track: youtube-dl or ffmpeg failed"@,
            PlayerError::EngineRegistrationFailed => "Error playing track: Unable to initialize TrackEvent handler."@,
        }
    }

    pub fn message(&self) -> (r: String)
        ensures
            r@ == self.message_view(),
    {
        match self {
            PlayerError::NotConnected => String::from_str("Not connected to a voice channel!"),
            PlayerError::AlreadyConnected => String::from_str(
                "Already connected to a voice channel in this server!",
            ),
            PlayerError::NotPlaying => String::from_str("Cannot seek, not playing a song."),
            PlayerError::SeekOutOfRange => String::from_str("Unable to seek track: time out of range"),
            PlayerError::PlaybackQueryFailed => String::from_str(
                "Unable to get current song info from Track",
            ),
            PlayerError::SourceOpenFailed => String::from_str(
                "Error playing track: youtube-dl or ffmpeg failed",
            ),
            PlayerError::EngineRegistrationFailed => String::from_str(
                "Error playing track: Unable to initialize TrackEvent handler.",
            ),
        }
    }
}

// What each operation does to the state, as one spec function per operation.
// The executable operations promise exactly these transitions, and the laws
// at the end of this file are stated over them.

/// Appending one track at the insertion end.
pub open spec fn enqueued(q: MediaQueueView, item: MediaItemView) -> MediaQueueView {
    MediaQueueView { queue: q.queue.push(QueueEntryView::Track(item)), ..q }
}

/// Appending a batch at the insertion end, keeping its inner order.
pub open spec fn enqueued_batch(q: MediaQueueView, items: Seq<MediaItemView>) -> MediaQueueView {
    MediaQueueView {
        queue: q.queue + items.map_values(|it: MediaItemView| QueueEntryView::Track(it)),
        ..q
    }
}

/// Inserting one track at the removal end, so that it plays next.
pub open spec fn enqueued_next(q: MediaQueueView, item: MediaItemView) -> MediaQueueView {
    MediaQueueView { queue: seq![QueueEntryView::Track(item)] + q.queue, ..q }
}

/// Dropping every pending entry.
pub open spec fn cleared(q: MediaQueueView) -> MediaQueueView {
    MediaQueueView { queue: Seq::<QueueEntryView>::empty(), ..q }
}

/// Requesting shutdown: the running flag is lowered once and for all and the
/// sentinel joins the queue at the insertion end, like any entry.
pub open spec fn quitted(q: MediaQueueView) -> MediaQueueView {
    MediaQueueView { running_state: false, queue: q.queue.push(QueueEntryView::Shutdown), ..q }
}

/// Whether the worker, having removed the oldest entry, must leave its loop:
/// either shutdown was requested, or the removed entry is the sentinel.
pub open spec fn exit_decision(q: MediaQueueView) -> bool
    recommends
        q.queue.len() > 0,
{
    !q.running_state || q.queue[0] is Shutdown
}

/// The state after the worker removed the oldest entry.  On exit the
/// now-playing slot is cleared.
pub open spec fn after_dequeue(q: MediaQueueView) -> MediaQueueView
    recommends
        q.queue.len() > 0,
{
    MediaQueueView {
        queue: q.queue.drop_first(),
        now_playing: if exit_decision(q) {
            None
        } else {
            q.now_playing
        },
        ..q
    }
}

/// The state once the engine started a track and handed back a handle.
pub open spec fn started(q: MediaQueueView, item: MediaItemView, handle: u64) -> MediaQueueView {
    MediaQueueView { now_playing: Some((item, handle)), ..q }
}

/// The state once the current track ended (on its own or stopped).
pub open spec fn finished(q: MediaQueueView) -> MediaQueueView {
    MediaQueueView { now_playing: None, ..q }
}

/// The handle of the entry now playing, if any: what skip or quit must stop.
pub open spec fn stop_handle(q: MediaQueueView) -> Option<u64> {
    match q.now_playing {
        Some((_, handle)) => Some(handle),
        None => None,
    }
}

/// What a seek request decides: only while a track plays, and only to a
/// target within `0 <= time < duration`.
pub open spec fn seek_decision(q: MediaQueueView, time: int) -> Result<u64, PlayerError> {
    match q.now_playing {
        None => Err(PlayerError::NotPlaying),
        Some((item, handle)) => if 0 <= time && time < item.info.duration {
            Ok(handle)
        } else {
            Err(PlayerError::SeekOutOfRange)
        },
    }
}

/// The track the worker would play on its next wake, if any.
pub open spec fn next_play(q: MediaQueueView) -> Option<MediaItemView> {
    if q.queue.len() > 0 && q.running_state {
        match q.queue[0] {
            QueueEntryView::Track(item) => Some(item),
            QueueEntryView::Shutdown => None,
        }
    } else {
        None
    }
}

/// One full worker turn as far as the queue is concerned: the oldest entry
/// is consumed, and afterwards nothing is playing.
pub open spec fn cycle(q: MediaQueueView) -> MediaQueueView {
    MediaQueueView { queue: q.queue.drop_first(), now_playing: None, ..q }
}

/// `n` worker turns in a row.
pub open spec fn cycles(q: MediaQueueView, n: nat) -> MediaQueueView
    decreases n,
{
    if n == 0 {
        q
    } else {
        cycles(cycle(q), (n - 1) as nat)
    }
}

/// The row a queue entry shows in a paginated read: its track, or the
/// placeholder for the sentinel.
pub open spec fn entry_display_info(e: QueueEntryView) -> MediaInfoView {
    match e {
        QueueEntryView::Track(item) => item.info,
        QueueEntryView::Shutdown => empty_info_view(),
    }
}

/// The row shown for the now-playing slot: its track, or the placeholder.
pub open spec fn now_playing_info(q: MediaQueueView) -> MediaInfoView {
    match q.now_playing {
        Some((item, _)) => item.info,
        None => empty_info_view(),
    }
}

/// How many rows a read can see in total: the pending entries plus one for
/// the now-playing slot when it is occupied.
pub open spec fn total_len(q: MediaQueueView) -> int {
    q.queue.len() + if q.now_playing is Some {
        1int
    } else {
        0int
    }
}

/// An index clipped into `[0, len]`.
pub open spec fn clamp_index(i: int, len: int) -> int {
    if i < 0 {
        0
    } else if i > len {
        len
    } else {
        i
    }
}

/// Up to `count` rows of the pending queue in play order, starting at index
/// `from`, clipped to what exists.
pub open spec fn queue_window(entries: Seq<QueueEntryView>, from: int, count: int) -> Seq<
    MediaInfoView,
>
    recommends
        from >= 0,
        count >= 0,
{
    let rows = entries.map_values(|e: QueueEntryView| entry_display_info(e));
    rows.subrange(clamp_index(from, entries.len() as int), clamp_index(from + count, entries.len() as int))
}

/// What a paginated read returns.  At offset 0 the first row is the
/// now-playing slot (a placeholder when idle) and `length - 1` slots remain
/// for the pending queue; at any later offset the now-playing row is skipped
/// and the walk starts one earlier in the pending queue.
pub open spec fn read_queue_view(q: MediaQueueView, start: int, length: int) -> Seq<MediaInfoView>
    recommends
        start >= 0,
        length >= 1,
{
    if start == 0 {
        seq![now_playing_info(q)] + queue_window(q.queue, 0, length - 1)
    } else {
        queue_window(q.queue, start - 1, length)
    }
}

/// The step the worker takes after removing the oldest queue entry.
pub enum DequeueStep {
    /// Play this entry next.
    Play(MediaItem),
    /// Leave the loop: shutdown was requested or the sentinel came up.
    Exit,
}

impl ChannelMediaPlayer {
    /// Well-formed fresh player: running, idle, empty queue.
    pub fn create_and_initialize(guild_id: u64) -> (p: ChannelMediaPlayer)
        ensures
            p.guild_id == guild_id,
            p.media_queue@.running_state,
            p.media_queue@.now_playing is None,
            p.media_queue@.queue.len() == 0,
    {
        let p = ChannelMediaPlayer {
            guild_id,
            media_queue: MediaQueue {
                running_state: true,
                now_playing: None,
                queue: VecDeque::new(),
            },
        };
        proof {
            assert(p.media_queue@.queue =~= Seq::<QueueEntryView>::empty());
        }
        p
    }

    /// Appends one track at the insertion end.
    pub fn enqueue(&mut self, info: MediaInfo, message_ctx: MessageContext)
        ensures
            final(self).guild_id == old(self).guild_id,
            final(self).media_queue@ == enqueued(
                old(self).media_queue@,
                MediaItemView { info: info@, message_ctx },
            ),
    {
        self.media_queue.queue.push_back(QueueEntry::Track(MediaItem { info, message_ctx }));
        proof {
            assert(self.media_queue@.queue =~= enqueued(
                old(self).media_queue@,
                MediaItemView { info: info@, message_ctx },
            ).queue);
            assert(self.media_queue@ =~= enqueued(
                old(self).media_queue@,
                MediaItemView { info: info@, message_ctx },
            ));
        }
    }

    /// Appends a whole batch at the insertion end, preserving its order.
    pub fn enqueue_batch(&mut self, media_infos: Vec<MediaInfo>, message_ctx: MessageContext)
        ensures
            final(self).guild_id == old(self).guild_id,
            final(self).media_queue@ == enqueued_batch(
                old(self).media_queue@,
                media_infos@.map_values(
                    |i: MediaInfo| MediaItemView { info: i@, message_ctx },
                ),
            ),
    {
        let ghost items = media_infos@.map_values(
            |i: MediaInfo| MediaItemView { info: i@, message_ctx },
        );
        let n = media_infos.len();
        let mut k: usize = 0;
        while k < n
            invariant
                n == media_infos.len(),
                k <= n,
                self.guild_id == old(self).guild_id,
                self.media_queue@.running_state == old(self).media_queue@.running_state,
                self.media_queue@.now_playing == old(self).media_queue@.now_playing,
                self.media_queue@.queue =~= old(self).media_queue@.queue + items.subrange(
                    0,
                    k as int,
                ).map_values(|it: MediaItemView| QueueEntryView::Track(it)),
                items == media_infos@.map_values(
                    |i: MediaInfo| MediaItemView { info: i@, message_ctx },
                ),
            decreases n - k,
        {
            let info = media_infos[k].clone();
            proof {
                assert(items[k as int] == MediaItemView {
                    info: media_infos@[k as int]@,
                    message_ctx,
                });
                assert(info@ == media_infos@[k as int]@);
            }
            let entry = QueueEntry::Track(MediaItem { info, message_ctx });
            let ghost ev = entry@;
            let ghost pre_vd = self.media_queue.queue@;
            let ghost pre_mapped = self.media_queue@.queue;
            self.media_queue.queue.push_back(entry);
            k = k + 1;
            proof {
                assert(ev == QueueEntryView::Track(items[k - 1]));
                assert(self.media_queue@.queue =~= pre_mapped.push(ev)) by {
                    assert(self.media_queue.queue@ == pre_vd.push(
                        self.media_queue.queue@[pre_vd.len() as int],
                    ));
                    assert forall|i: int|
                        0 <= i < pre_vd.len() implies self.media_queue@.queue[i] == pre_mapped[i] by {
                        assert(self.media_queue.queue@[i] == pre_vd[i]);
                    };
                    assert(self.media_queue.queue@[pre_vd.len() as int]@ == ev);
                };
                assert(self.media_queue@.queue =~= old(self).media_queue@.queue + items.subrange(
                    0,
                    k as int,
                ).map_values(|it: MediaItemView| QueueEntryView::Track(it))) by {
                    assert(items.subrange(0, k as int) =~= items.subrange(0, k - 1).push(
                        items[k - 1],
                    ));
                };
            }
        }
        proof {
            assert(items.subrange(0, n as int) =~= items);
            assert(self.media_queue@ =~= enqueued_batch(old(self).media_queue@, items));
        }
    }

    /// Inserts one track at the removal end, so that it plays next.
    pub fn enqueue_next(&mut self, info: MediaInfo, message_ctx: MessageContext)
        ensures
            final(self).guild_id == old(self).guild_id,
            final(self).media_queue@ == enqueued_next(
                old(self).media_queue@,
                MediaItemView { info: info@, message_ctx },
            ),
    {
        self.media_queue.queue.push_front(QueueEntry::Track(MediaItem { info, message_ctx }));
        proof {
            assert(self.media_queue@ =~= enqueued_next(
                old(self).media_queue@,
                MediaItemView { info: info@, message_ctx },
            ));
        }
    }

    /// Drops every pending entry; the current track keeps playing.
    pub fn clear(&mut self)
        ensures
            final(self).guild_id == old(self).guild_id,
            final(self).media_queue@ == cleared(old(self).media_queue@),
    {
        self.media_queue.queue.clear();
        proof {
            assert(self.media_queue@ =~= cleared(old(self).media_queue@));
        }
    }

    /// The handle to stop so that the current track is skipped.  Stopping it
    /// raises the same end-of-track signal a natural finish would, so the
    /// worker then proceeds as if the track had ended on its own.  Nothing to
    /// stop is not an error.
    pub fn skip(&self) -> (r: Option<u64>)
        ensures
            r == stop_handle(self.media_queue@),
    {
        match &self.media_queue.now_playing {
            Some((_, handle)) => Some(*handle),
            None => None,
        }
    }

    /// Decides a seek: only while a track plays, and only to a target within
    /// `0 <= time < duration` — a seek to the exact duration is rejected, not
    /// clamped.  Returns the handle to seek on.
    pub fn seek(&self, time: i64) -> (r: Result<u64, PlayerError>)
        ensures
            r == seek_decision(self.media_queue@, time as int),
    {
        match &self.media_queue.now_playing {
            Some((item, handle)) => {
                if 0 <= time && time < item.info.duration {
                    Ok(*handle)
                } else {
                    Err(PlayerError::SeekOutOfRange)
                }
            },
            None => Err(PlayerError::NotPlaying),
        }
    }

    /// What is playing right now: the track and the handle to query, or
    /// nothing.
    pub fn current_track(&self) -> (r: Option<(MediaInfo, u64)>)
        ensures
            r is Some <==> self.media_queue@.now_playing is Some,
            r matches Some(p) ==> self.media_queue@.now_playing matches Some(np) && p.0@ == np.0.info
                && p.1 == np.1,
    {
        match &self.media_queue.now_playing {
            Some((item, handle)) => Some((item.info.clone(), *handle)),
            None => None,
        }
    }

    /// Folds the engine's answer to a position query into the now-playing
    /// report: the position on success, `PlaybackQueryFailed` when the handle
    /// could not report.
    pub fn now_playing_report(info: MediaInfo, position: Option<i64>) -> (r: Result<
        (MediaInfo, i64),
        PlayerError,
    >)
        ensures
            match position {
                Some(p) => r matches Ok(pair) && pair.0@ == info@ && pair.1 == p,
                None => r == Err::<(MediaInfo, i64), PlayerError>(PlayerError::PlaybackQueryFailed),
            },
    {
        match position {
            Some(p) => Ok((info, p)),
            None => Err(PlayerError::PlaybackQueryFailed),
        }
    }

    /// Requests shutdown: lowers the running flag (terminal: nothing ever
    /// raises it again), queues the sentinel at the insertion end, and hands
    /// back the handle to stop if something is playing.  Never waits for the
    /// worker.
    pub fn quit(&mut self) -> (r: Option<u64>)
        ensures
            final(self).guild_id == old(self).guild_id,
            final(self).media_queue@ == quitted(old(self).media_queue@),
            r == stop_handle(old(self).media_queue@),
    {
        self.media_queue.running_state = false;
        self.media_queue.queue.push_back(QueueEntry::Shutdown);
        let r = match &self.media_queue.now_playing {
            Some((_, handle)) => Some(*handle),
            None => None,
        };
        proof {
            assert(self.media_queue@ =~= quitted(old(self).media_queue@));
        }
        r
    }

    /// Whether the worker should keep going after starting a track; false
    /// only once shutdown was requested.
    pub fn is_running(&self) -> (r: bool)
        ensures
            r == self.media_queue@.running_state,
    {
        self.media_queue.running_state
    }

    /// Reads one page of the queue: the returned rows are
    /// `read_queue_view(self, start, length)` and the second component is the
    /// total number of rows a walk over every page would see.
    pub fn read_queue(&self, start: usize, length: usize) -> (r: (Vec<MediaInfo>, usize))
        requires
            length >= 1,
            start + length <= usize::MAX,
            total_len(self.media_queue@) <= usize::MAX,
        ensures
            r.0@.map_values(|m: MediaInfo| m@) == read_queue_view(
                self.media_queue@,
                start as int,
                length as int,
            ),
            r.1 == total_len(self.media_queue@),
    {
        let mq = &self.media_queue;
        let ghost mapped = mq@.queue.map_values(|e: QueueEntryView| entry_display_info(e));
        let mut out: Vec<MediaInfo> = Vec::new();
        let mut head_rows: usize = 0;
        let (eff_start, eff_len): (usize, usize) = if start == 0 {
            match &mq.now_playing {
                Some((item, _)) => {
                    out.push(item.info.clone());
                },
                None => {
                    out.push(MediaInfo::empty());
                },
            }
            head_rows = 1;
            (0, length - 1)
        } else {
            (start - 1, length)
        };
        let qlen = mq.queue.len();
        let lo: usize = if eff_start > qlen {
            qlen
        } else {
            eff_start
        };
        let hi: usize = if eff_start + eff_len > qlen {
            qlen
        } else {
            eff_start + eff_len
        };
        let mut i: usize = lo;
        while i < hi
            invariant
                lo <= i <= hi <= qlen,
                qlen == mq@.queue.len(),
                mapped == mq@.queue.map_values(|e: QueueEntryView| entry_display_info(e)),
                out@.len() == head_rows + (i - lo),
                head_rows == 1 ==> out@.len() >= 1 && out@[0]@ == now_playing_info(mq@),
                forall|j: int|
                    head_rows <= j < out@.len() ==> out@[j]@ == mapped[lo + (j - head_rows)],
            decreases hi - i,
        {
            let row = match &mq.queue[i] {
                QueueEntry::Track(item) => item.info.clone(),
                QueueEntry::Shutdown => MediaInfo::empty(),
            };
            proof {
                assert(row@ == mapped[i as int]) by {
                    assert(mq@.queue[i as int] == mq.queue@[i as int]@);
                };
            }
            out.push(row);
            i = i + 1;
        }
        let total = if mq.now_playing.is_some() {
            qlen + 1
        } else {
            qlen
        };
        proof {
            let target = read_queue_view(mq@, start as int, length as int);
            assert(out@.map_values(|m: MediaInfo| m@) =~= target) by {
                assert(target.len() == head_rows + (hi - lo)) by {
                    assert(clamp_index(lo as int, qlen as int) == lo as int);
                    assert(clamp_index(hi as int, qlen as int) == hi as int);
                };
                assert forall|j: int| 0 <= j < out@.len() implies out@[j]@ == target[j] by {
                    if j >= head_rows {
                        assert(out@[j]@ == mapped[lo + (j - head_rows)]);
                    }
                };
            };
        }
        (out, total)
    }

    /// The worker removes the oldest entry and decides: play it, or leave the
    /// loop because shutdown was requested or the sentinel came up.  On exit
    /// the now-playing slot is cleared; otherwise it is left alone until the
    /// engine reports back.
    pub fn worker_dequeue(&mut self) -> (r: DequeueStep)
        requires
            old(self).media_queue@.queue.len() > 0,
        ensures
            final(self).guild_id == old(self).guild_id,
            final(self).media_queue@ == after_dequeue(old(self).media_queue@),
            match r {
                DequeueStep::Exit => exit_decision(old(self).media_queue@),
                DequeueStep::Play(item) => !exit_decision(old(self).media_queue@) && old(
                    self,
                ).media_queue@.queue[0] == QueueEntryView::Track(item@),
            },
    {
        let entry_opt = self.media_queue.queue.pop_front();
        proof {
            assert(self.media_queue@.queue =~= old(self).media_queue@.queue.drop_first());
        }
        match entry_opt {
            None => {
                // impossible: the queue was not empty
                proof {
                    assert(false);
                }
                DequeueStep::Exit
            },
            Some(entry) => {
                if !self.media_queue.running_state {
                    self.media_queue.now_playing = None;
                    proof {
                        assert(self.media_queue@ =~= after_dequeue(old(self).media_queue@));
                    }
                    DequeueStep::Exit
                } else {
                    match entry {
                        QueueEntry::Shutdown => {
                            self.media_queue.now_playing = None;
                            proof {
                                assert(self.media_queue@ =~= after_dequeue(old(self).media_queue@));
                            }
                            DequeueStep::Exit
                        },
                        QueueEntry::Track(item) => {
                            proof {
                                assert(old(self).media_queue@.queue[0] == QueueEntryView::Track(
                                    item@,
                                ));
                                assert(self.media_queue@ =~= after_dequeue(old(self).media_queue@));
                            }
                            DequeueStep::Play(item)
                        },
                    }
                }
            },
        }
    }

    /// The engine started a track: record it, with its handle, as playing.
    /// Returns the running flag, read in the same step, which tells the
    /// worker whether to wait for the end-of-track signal.
    pub fn worker_track_started(&mut self, item: MediaItem, track_handle: u64) -> (running: bool)
        ensures
            final(self).guild_id == old(self).guild_id,
            final(self).media_queue@ == started(old(self).media_queue@, item@, track_handle),
            running == old(self).media_queue@.running_state,
    {
        self.media_queue.now_playing = Some((item, track_handle));
        proof {
            assert(self.media_queue@ =~= started(old(self).media_queue@, item@, track_handle));
        }
        self.media_queue.running_state
    }

    /// The current track ended (by itself or stopped): clear the now-playing
    /// slot and tell the worker whether shutdown was requested meanwhile, in
    /// which case it leaves its loop.
    pub fn worker_track_finished(&mut self) -> (exit: bool)
        ensures
            final(self).guild_id == old(self).guild_id,
            final(self).media_queue@ == finished(old(self).media_queue@),
            exit == !old(self).media_queue@.running_state,
    {
        self.media_queue.now_playing = None;
        proof {
            assert(self.media_queue@ =~= finished(old(self).media_queue@));
        }
        !self.media_queue.running_state
    }
}

// The laws of the scheduler, stated over the transition functions that the
// executable operations promise.

/// Worker turns drop pending entries strictly from the removal end: after
/// `n` turns exactly the `n` oldest entries are gone and the running flag is
/// untouched.
pub proof fn lemma_cycles_drop(q: MediaQueueView, n: nat)
    requires
        n <= q.queue.len(),
    ensures
        cycles(q, n).queue =~= q.queue.skip(n as int),
        cycles(q, n).running_state == q.running_state,
    decreases n,
{
    if n > 0 {
        assert(cycle(q).queue =~= q.queue.skip(1));
        lemma_cycles_drop(cycle(q), (n - 1) as nat);
        assert(cycle(q).queue.skip(n - 1) =~= q.queue.skip(n as int));
    }
}

/// Worker turns never raise or lower the running flag.
pub proof fn lemma_cycles_keep_running(q: MediaQueueView, n: nat)
    ensures
        cycles(q, n).running_state == q.running_state,
    decreases n,
{
    if n > 0 {
        lemma_cycles_keep_running(cycle(q), (n - 1) as nat);
    }
}

/// First-in-first-out order: enqueueing `a`, then `b`, then `c`, with no
/// other queue mutation, makes the worker reach them in exactly that order —
/// `a` as soon as everything older is consumed, then `b`, then `c`.
pub proof fn lemma_fifo_order(q: MediaQueueView, a: MediaItemView, b: MediaItemView, c: MediaItemView)
    requires
        q.running_state,
    ensures
        ({
            let q3 = enqueued(enqueued(enqueued(q, a), b), c);
            let base = cycles(q3, q.queue.len());
            &&& next_play(base) == Some(a)
            &&& next_play(cycle(base)) == Some(b)
            &&& next_play(cycle(cycle(base))) == Some(c)
        }),
{
    let q3 = enqueued(enqueued(enqueued(q, a), b), c);
    let tail = seq![
        QueueEntryView::Track(a),
        QueueEntryView::Track(b),
        QueueEntryView::Track(c),
    ];
    assert(q3.queue =~= q.queue + tail);
    lemma_cycles_drop(q3, q.queue.len());
    let base = cycles(q3, q.queue.len());
    assert(base.queue =~= tail);
    assert(cycle(base).queue =~= seq![QueueEntryView::Track(b), QueueEntryView::Track(c)]);
    assert(cycle(cycle(base)).queue =~= seq![QueueEntryView::Track(c)]);
}

/// A batch keeps its inner order: the `i`-th track of the batch is what the
/// worker reaches on its `i`-th turn past everything that was already
/// pending.  Queues of other guilds are separate states and untouched.
pub proof fn lemma_batch_order(q: MediaQueueView, items: Seq<MediaItemView>)
    requires
        q.running_state,
    ensures
        forall|i: int|
            0 <= i < items.len() ==> next_play(
                cycles(enqueued_batch(q, items), (q.queue.len() + i) as nat),
            ) == Some(items[i]),
{
    let qb = enqueued_batch(q, items);
    assert forall|i: int|
        0 <= i < items.len() implies next_play(
        cycles(qb, (q.queue.len() + i) as nat),
    ) == Some(items[i]) by {
        lemma_cycles_drop(qb, (q.queue.len() + i) as nat);
        let rest = cycles(qb, (q.queue.len() + i) as nat);
        assert(rest.queue[0] == qb.queue[q.queue.len() + i]);
        assert(qb.queue[q.queue.len() + i] == QueueEntryView::Track(items[i]));
    };
}

/// Skip advances exactly one: stopping the playing track raises the same
/// end-of-track signal a natural finish would, and the worker's next turn
/// makes the head of the queue the playing track, with the queue shorter by
/// exactly one.
pub proof fn lemma_skip_advances_one(q: MediaQueueView, item: MediaItemView, handle: u64)
    requires
        q.running_state,
        q.now_playing is Some,
        q.queue.len() > 0,
        q.queue[0] == QueueEntryView::Track(item),
    ensures
        ({
            let after_finish = finished(q);
            let after_start = started(after_dequeue(after_finish), item, handle);
            &&& !exit_decision(after_finish)
            &&& next_play(after_finish) == Some(item)
            &&& after_start.now_playing == Some((item, handle))
            &&& after_start.queue.len() == q.queue.len() - 1
        }),
{
}

/// Quit discards pending work: once shutdown is requested the running flag
/// is down for good, and however many turns the worker takes it never plays
/// another entry, no matter what is still queued.
pub proof fn lemma_quit_discards_pending(q: MediaQueueView, n: nat)
    ensures
        !quitted(q).running_state,
        next_play(cycles(quitted(q), n)) is None,
{
    lemma_cycles_keep_running(quitted(q), n);
}

/// Pagination idempotence: reading the first `n` rows and then the `m` rows
/// after them, with nothing changed in between, is the same as one read of
/// the first `n + m` rows.
pub proof fn lemma_read_queue_pagination(q: MediaQueueView, n: int, m: int)
    requires
        n >= 1,
        m >= 1,
    ensures
        read_queue_view(q, 0, n) + read_queue_view(q, n, m) =~= read_queue_view(q, 0, n + m),
{
    let rows = q.queue.map_values(|e: QueueEntryView| entry_display_info(e));
    let len = q.queue.len() as int;
    assert(queue_window(q.queue, 0, n - 1) + queue_window(q.queue, n - 1, m) =~= queue_window(
        q.queue,
        0,
        n - 1 + m,
    ));
    assert(read_queue_view(q, 0, n) + read_queue_view(q, n, m) =~= seq![now_playing_info(q)]
        + (queue_window(q.queue, 0, n - 1) + queue_window(q.queue, n - 1, m)));
}

} // verus!
