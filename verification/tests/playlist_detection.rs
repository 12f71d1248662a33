use mimicri::metadata::{contains_str, is_playlist};

#[test]
fn metadata_is_playlist_playlist_page() {
    assert!(is_playlist(
        &"https://www.youtube.com/playlist?list=PLdY_Mca8fL_BbtQrKu9lm-LcCcY-t2mVS".to_string()
    ))
}

#[test]
fn metadata_is_playlist_video_page() {
    assert!(is_playlist(
        &"https://www.youtube.com/watch?v=nBpgoga0FZ4&list=PLdY_Mca8fL_BbtQrKu9lm-LcCcY-t2mVS"
            .to_string()
    ))
}

#[test]
fn metadata_is_playlist_not_video() {
    assert!(!is_playlist(
        &"https://www.youtube.com/watch?v=6YBDo5S8soo".to_string()
    ))
}

#[test]
fn substring_search() {
    assert!(contains_str("hello world", "o w"));
    assert!(contains_str("hello world", ""));
    assert!(contains_str("", ""));
    assert!(!contains_str("", "x"));
    assert!(!contains_str("hello world", "worlds"));
    assert!(contains_str("aaab", "aab"));
}

#[test]
fn playlist_needs_site_and_list() {
    assert!(!is_playlist(&"https://example.com/playlist?list=abc".to_string()));
    assert!(!is_playlist(&"https://www.youtube.com/watch?v=abc".to_string()));
}
