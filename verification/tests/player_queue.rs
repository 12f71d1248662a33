use mimicri::message_context::MessageContext;
use mimicri::player::{ChannelMediaPlayer, DequeueStep, PlayerError};
use mimicri::MediaInfo;

fn track(title: &str, duration: i64) -> MediaInfo {
    let mut info = MediaInfo::empty();
    info.title = title.to_string();
    info.url = format!("https://example.com/{}", title);
    info.duration = duration;
    info
}

fn ctx() -> MessageContext {
    MessageContext::new(77)
}

#[test]
fn fifo_play_order() {
    let mut player = ChannelMediaPlayer::create_and_initialize(1);
    player.enqueue(track("a", 100), ctx());
    player.enqueue(track("b", 100), ctx());
    player.enqueue(track("c", 100), ctx());

    for expected in ["a", "b", "c"] {
        match player.worker_dequeue() {
            DequeueStep::Play(item) => assert_eq!(item.info.title, expected),
            DequeueStep::Exit => panic!("worker left the loop early"),
        }
    }
}

#[test]
fn batch_keeps_inner_order() {
    let mut player = ChannelMediaPlayer::create_and_initialize(1);
    player.enqueue(track("first", 10), ctx());
    player.enqueue_batch(vec![track("a", 1), track("b", 2), track("c", 3)], ctx());

    for expected in ["first", "a", "b", "c"] {
        match player.worker_dequeue() {
            DequeueStep::Play(item) => assert_eq!(item.info.title, expected),
            DequeueStep::Exit => panic!("worker left the loop early"),
        }
    }
}

#[test]
fn play_next_jumps_the_queue() {
    let mut player = ChannelMediaPlayer::create_and_initialize(1);
    player.enqueue(track("waiting", 10), ctx());
    player.enqueue_next(track("urgent", 10), ctx());

    match player.worker_dequeue() {
        DequeueStep::Play(item) => assert_eq!(item.info.title, "urgent"),
        DequeueStep::Exit => panic!("worker left the loop early"),
    }
}

#[test]
fn skip_advances_exactly_one() {
    let mut player = ChannelMediaPlayer::create_and_initialize(1);
    player.enqueue(track("one", 10), ctx());
    player.enqueue(track("two", 10), ctx());
    player.enqueue(track("three", 10), ctx());

    // the worker takes the first track and starts it
    let first = match player.worker_dequeue() {
        DequeueStep::Play(item) => item,
        DequeueStep::Exit => panic!("worker left the loop early"),
    };
    player.worker_track_started(first, 41);
    let (_, total_before) = player.read_queue(0, 10);
    assert_eq!(total_before, 3);

    // skip: the caller stops the playing handle, the end signal fires, and
    // the worker moves on to the next track
    assert_eq!(player.skip(), Some(41));
    assert!(!player.worker_track_finished());
    let second = match player.worker_dequeue() {
        DequeueStep::Play(item) => item,
        DequeueStep::Exit => panic!("worker left the loop early"),
    };
    assert_eq!(second.info.title, "two");
    player.worker_track_started(second, 42);

    let (rows, total_after) = player.read_queue(0, 10);
    assert_eq!(total_after, 2);
    assert_eq!(rows[0].title, "two");
    assert_eq!(rows[1].title, "three");
}

#[test]
fn skip_with_nothing_playing_is_no_op() {
    let player = ChannelMediaPlayer::create_and_initialize(1);
    assert_eq!(player.skip(), None);
}

#[test]
fn quit_discards_pending_work() {
    let mut player = ChannelMediaPlayer::create_and_initialize(1);
    player.enqueue(track("one", 10), ctx());
    player.enqueue(track("two", 10), ctx());
    player.enqueue(track("three", 10), ctx());

    let first = match player.worker_dequeue() {
        DequeueStep::Play(item) => item,
        DequeueStep::Exit => panic!("worker left the loop early"),
    };
    player.worker_track_started(first, 9);

    // shutdown: stops the current track and lowers the running flag
    assert_eq!(player.quit(), Some(9));

    // the worker observes the end of the stopped track and leaves its loop;
    // the two remaining tracks are never played
    assert!(player.worker_track_finished());
    match player.worker_dequeue() {
        DequeueStep::Play(_) => panic!("played past shutdown"),
        DequeueStep::Exit => {}
    }
}

#[test]
fn pagination_concatenation() {
    let mut player = ChannelMediaPlayer::create_and_initialize(1);
    for name in ["a", "b", "c", "d", "e"] {
        player.enqueue(track(name, 10), ctx());
    }
    let playing = match player.worker_dequeue() {
        DequeueStep::Play(item) => item,
        DequeueStep::Exit => panic!("worker left the loop early"),
    };
    player.worker_track_started(playing, 1);

    let (first_page, total_a) = player.read_queue(0, 3);
    let (second_page, total_b) = player.read_queue(3, 2);
    let (whole, total_c) = player.read_queue(0, 5);

    assert_eq!(total_a, 5);
    assert_eq!(total_b, 5);
    assert_eq!(total_c, 5);

    let mut joined = first_page;
    joined.extend(second_page);
    assert_eq!(joined, whole);

    assert_eq!(whole[0].title, "a");
    assert_eq!(whole[1].title, "b");
    assert_eq!(whole[4].title, "e");
}

#[test]
fn pagination_placeholder_when_idle() {
    let mut player = ChannelMediaPlayer::create_and_initialize(1);
    player.enqueue(track("only", 10), ctx());

    let (rows, total) = player.read_queue(0, 5);
    assert_eq!(total, 1);
    assert_eq!(rows.len(), 2);
    assert_eq!(rows[0], MediaInfo::empty());
    assert_eq!(rows[1].title, "only");
}

#[test]
fn seek_boundaries() {
    let mut player = ChannelMediaPlayer::create_and_initialize(1);
    assert_eq!(player.seek(10), Err(PlayerError::NotPlaying));

    player.enqueue(track("song", 300), ctx());
    let item = match player.worker_dequeue() {
        DequeueStep::Play(item) => item,
        DequeueStep::Exit => panic!("worker left the loop early"),
    };
    player.worker_track_started(item, 5);

    assert_eq!(player.seek(299), Ok(5));
    assert_eq!(player.seek(0), Ok(5));
    assert_eq!(player.seek(300), Err(PlayerError::SeekOutOfRange));
    assert_eq!(player.seek(-1), Err(PlayerError::SeekOutOfRange));
}

#[test]
fn now_playing_report_outcomes() {
    let good = ChannelMediaPlayer::now_playing_report(track("song", 300), Some(42));
    let (info, position) = good.unwrap();
    assert_eq!(info.title, "song");
    assert_eq!(position, 42);

    let bad = ChannelMediaPlayer::now_playing_report(track("song", 300), None);
    assert_eq!(bad.unwrap_err(), PlayerError::PlaybackQueryFailed);
}

#[test]
fn source_failure_abandons_entry_only() {
    let mut player = ChannelMediaPlayer::create_and_initialize(1);
    player.enqueue(track("broken", 10), ctx());
    player.enqueue(track("fine", 10), ctx());

    // the caller fails to open a source for the first entry and notifies
    // its requester; the worker just moves on
    let first = match player.worker_dequeue() {
        DequeueStep::Play(item) => item,
        DequeueStep::Exit => panic!("worker left the loop early"),
    };
    assert_eq!(first.message_ctx.channel, 77);

    match player.worker_dequeue() {
        DequeueStep::Play(item) => assert_eq!(item.info.title, "fine"),
        DequeueStep::Exit => panic!("worker left the loop early"),
    }
}

#[test]
fn clear_empties_pending_only() {
    let mut player = ChannelMediaPlayer::create_and_initialize(1);
    player.enqueue(track("one", 10), ctx());
    let item = match player.worker_dequeue() {
        DequeueStep::Play(item) => item,
        DequeueStep::Exit => panic!("worker left the loop early"),
    };
    player.worker_track_started(item, 3);
    player.enqueue(track("two", 10), ctx());

    player.clear();
    let (rows, total) = player.read_queue(0, 5);
    assert_eq!(total, 1);
    assert_eq!(rows.len(), 1);
    assert_eq!(rows[0].title, "one");
}

#[test]
fn error_messages() {
    assert_eq!(
        PlayerError::NotConnected.message(),
        "Not connected to a voice channel!"
    );
    assert_eq!(
        PlayerError::AlreadyConnected.message(),
        "Already connected to a voice channel in this server!"
    );
    assert_eq!(
        PlayerError::NotPlaying.message(),
        "Cannot seek, not playing a song."
    );
    assert_eq!(
        PlayerError::SeekOutOfRange.message(),
        "Unable to seek track: time out of range"
    );
    assert_eq!(
        PlayerError::PlaybackQueryFailed.message(),
        "Unable to get current song info from Track"
    );
    assert_eq!(
        PlayerError::SourceOpenFailed.message(),
        "Error playing track: youtube-dl or ffmpeg failed"
    );
    assert_eq!(
        PlayerError::EngineRegistrationFailed.message(),
        "Error playing track: Unable to initialize TrackEvent handler."
    );
}
