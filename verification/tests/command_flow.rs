use mimicri::commands::{
    create_playlist_plan, parse_seek_input, play_query_check, play_response_plan,
    playlist_not_empty_check, playlist_source_check, queue_variant_plan, seek_input,
    vc_join_decision, CreatePlaylistPlan, JoinDecision, PlayResponse, QueryPlan,
};
use mimicri::{MediaInfo, PlaylistInfo};

fn track(title: &str) -> MediaInfo {
    let mut info = MediaInfo::empty();
    info.title = title.to_string();
    info.uploader = format!("{}-uploader", title);
    info.thumbnail = format!("https://img/{}", title);
    info.url = format!("https://example.com/{}", title);
    info
}

#[test]
fn join_decisions() {
    assert_eq!(vc_join_decision(None, None), JoinDecision::UserNotInVc);
    assert_eq!(vc_join_decision(None, Some(2)), JoinDecision::UserNotInVc);
    assert_eq!(vc_join_decision(Some(1), Some(2)), JoinDecision::WrongChannel);
    assert_eq!(
        vc_join_decision(Some(2), Some(2)),
        JoinDecision::AlreadyTogether
    );
    assert_eq!(vc_join_decision(Some(3), None), JoinDecision::Join(3));
}

#[test]
fn empty_query_is_refused() {
    let err = play_query_check(&"".to_string()).unwrap_err();
    assert_eq!(err, "You didn't send anything dumbass");
    assert!(play_query_check(&"a song".to_string()).is_ok());
}

#[test]
fn query_classification() {
    let playlist =
        "https://www.youtube.com/playlist?list=PLdY_Mca8fL_BbtQrKu9lm-LcCcY-t2mVS".to_string();
    assert_eq!(queue_variant_plan(&playlist, true), QueryPlan::Playlist);
    assert_eq!(queue_variant_plan(&playlist, false), QueryPlan::SingleUrl);
    assert_eq!(
        queue_variant_plan(&"https://www.youtube.com/watch?v=x".to_string(), true),
        QueryPlan::SingleUrl
    );
    assert_eq!(
        queue_variant_plan(&"some song words".to_string(), true),
        QueryPlan::Search
    );
}

#[test]
fn play_responses() {
    assert!(matches!(play_response_plan(vec![]), PlayResponse::Nothing));

    match play_response_plan(vec![track("solo")]) {
        PlayResponse::Single(info) => assert_eq!(info.title, "solo"),
        _ => panic!("one track shows the track"),
    }

    let mut first = track("first");
    first.playlist = Some(PlaylistInfo {
        title: "mix".to_string(),
        uploader: "dj".to_string(),
    });
    match play_response_plan(vec![first, track("second"), track("third")]) {
        PlayResponse::Playlist { title, uploader, count, thumbnail, url } => {
            assert_eq!(title, "mix");
            assert_eq!(uploader, "dj");
            assert_eq!(count, 3);
            assert_eq!(thumbnail, "https://img/first");
            assert_eq!(url, "https://example.com/first");
        }
        _ => panic!("several tracks show the playlist"),
    }

    // without playlist data the first track's own title and uploader serve
    match play_response_plan(vec![track("bare"), track("second")]) {
        PlayResponse::Playlist { title, uploader, .. } => {
            assert_eq!(title, "bare");
            assert_eq!(uploader, "bare-uploader");
        }
        _ => panic!("several tracks show the playlist"),
    }
}

#[test]
fn playlist_creation_plans() {
    assert_eq!(
        create_playlist_plan(&"road trip".to_string()),
        CreatePlaylistPlan::ByName
    );
    assert_eq!(
        create_playlist_plan(
            &"https://www.youtube.com/playlist?list=PLdY_Mca8fL_BbtQrKu9lm-LcCcY-t2mVS".to_string()
        ),
        CreatePlaylistPlan::FetchPlaylist
    );
    assert_eq!(
        create_playlist_plan(&"https://www.youtube.com/watch?v=x".to_string()),
        CreatePlaylistPlan::RejectNotPlaylist
    );
}

#[test]
fn playlist_source_checks() {
    assert_eq!(
        playlist_not_empty_check(&vec![]).unwrap_err(),
        "Playlist is empty!"
    );
    assert!(playlist_not_empty_check(&vec![track("a")]).is_ok());

    assert_eq!(
        playlist_source_check(&vec![]).unwrap_err(),
        "Playlist is empty!"
    );
    assert_eq!(
        playlist_source_check(&vec![track("bare")]).unwrap_err(),
        "Couldn't retreive playlist data"
    );
    let mut first = track("first");
    first.playlist = Some(PlaylistInfo {
        title: "mix".to_string(),
        uploader: "dj".to_string(),
    });
    let info = playlist_source_check(&vec![first]).unwrap();
    assert_eq!(info.title, "mix");
    assert_eq!(info.uploader, "dj");
}

#[test]
fn seek_argument_reading() {
    assert_eq!(parse_seek_input(&"90".to_string()), Ok(90));
    assert_eq!(parse_seek_input(&"1:30".to_string()), Ok(90));
    assert_eq!(parse_seek_input(&"1:01:30".to_string()), Ok(3690));
    assert_eq!(
        parse_seek_input(&"-5".to_string()),
        Err("Cannot seek to negative time.".to_string())
    );
    assert_eq!(
        parse_seek_input(&"abc".to_string()),
        Err("abc isn't a valid timestamp.".to_string())
    );
}

#[test]
fn seek_argument_overflow_guard() {
    assert_eq!(seek_input(&"90".to_string()), Some(Ok(90)));
    assert_eq!(
        seek_input(&"abc".to_string()),
        Some(Err("abc isn't a valid timestamp.".to_string()))
    );
    // a timestamp shape whose fold leaves a signed 64-bit number is refused
    // before any parse is tried
    assert_eq!(seek_input(&"9223372036854775807:59".to_string()), None);
}
