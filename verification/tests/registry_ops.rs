use mimicri::message_context::MessageContext;
use mimicri::player::PlayerError;
use mimicri::registry::GlobalMediaPlayer;
use mimicri::MediaInfo;

fn track(title: &str) -> MediaInfo {
    let mut info = MediaInfo::empty();
    info.title = title.to_string();
    info.duration = 60;
    info
}

fn ctx() -> MessageContext {
    MessageContext::new(5)
}

#[test]
fn start_registers_once() {
    let mut registry = GlobalMediaPlayer::uninitialized();
    registry.init_self();

    assert!(registry.start(10).is_ok());
    assert_eq!(registry.start(10).unwrap_err(), PlayerError::AlreadyConnected);
    assert!(registry.start(11).is_ok());
}

#[test]
fn operations_need_a_player() {
    let mut registry = GlobalMediaPlayer::uninitialized();
    registry.init_self();

    assert_eq!(
        registry.enqueue(3, track("x"), ctx()).unwrap_err(),
        PlayerError::NotConnected
    );
    assert_eq!(registry.skip(3).unwrap_err(), PlayerError::NotConnected);
    assert_eq!(registry.seek(3, 10).unwrap_err(), PlayerError::NotConnected);
    assert_eq!(
        registry.read_queue(3, 0, 5).unwrap_err(),
        PlayerError::NotConnected
    );
    assert_eq!(registry.now_playing(3).unwrap_err(), PlayerError::NotConnected);
    assert_eq!(registry.quit(3).unwrap_err(), PlayerError::NotConnected);
}

#[test]
fn no_double_terminal_transition() {
    let mut registry = GlobalMediaPlayer::uninitialized();
    registry.init_self();
    registry.start(7).unwrap();
    registry.enqueue(7, track("a"), ctx()).unwrap();

    assert!(registry.quit(7).is_ok());
    assert_eq!(registry.quit(7).unwrap_err(), PlayerError::NotConnected);
    assert_eq!(
        registry.enqueue(7, track("b"), ctx()).unwrap_err(),
        PlayerError::NotConnected
    );
}

#[test]
fn guilds_are_isolated() {
    let mut registry = GlobalMediaPlayer::uninitialized();
    registry.init_self();
    registry.start(1).unwrap();
    registry.start(2).unwrap();

    registry
        .enqueue_batch(1, vec![track("a"), track("b")], ctx())
        .unwrap();
    registry.enqueue(2, track("elsewhere"), ctx()).unwrap();
    registry.enqueue(1, track("c"), ctx()).unwrap();

    let (rows1, total1) = registry.read_queue(1, 0, 10).unwrap();
    let (rows2, total2) = registry.read_queue(2, 0, 10).unwrap();

    assert_eq!(total1, 3);
    assert_eq!(rows1[1].title, "a");
    assert_eq!(rows1[2].title, "b");
    assert_eq!(rows1[3].title, "c");

    assert_eq!(total2, 1);
    assert_eq!(rows2[1].title, "elsewhere");
}

#[test]
fn registry_skip_and_now_playing_idle() {
    let mut registry = GlobalMediaPlayer::uninitialized();
    registry.init_self();
    registry.start(4).unwrap();

    // nothing playing: not an error, nothing to stop, nothing to show
    assert_eq!(registry.skip(4).unwrap(), None);
    assert_eq!(registry.now_playing(4).unwrap(), None);
    assert_eq!(registry.seek(4, 3).unwrap_err(), PlayerError::NotPlaying);
}

#[test]
fn clear_and_enqueue_next_through_registry() {
    let mut registry = GlobalMediaPlayer::uninitialized();
    registry.init_self();
    registry.start(9).unwrap();

    registry.enqueue(9, track("a"), ctx()).unwrap();
    registry.enqueue_next(9, track("b"), ctx()).unwrap();
    let (rows, total) = registry.read_queue(9, 0, 10).unwrap();
    assert_eq!(total, 2);
    assert_eq!(rows[1].title, "b");
    assert_eq!(rows[2].title, "a");

    registry.clear(9).unwrap();
    let (_, total_after) = registry.read_queue(9, 0, 10).unwrap();
    assert_eq!(total_after, 0);
}
