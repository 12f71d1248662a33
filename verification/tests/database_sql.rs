use mimicri::database::{
    create_playlist_name_check, escape_json, fallback_info, history_playlist, i64_digits,
    playlist_select_sql, playlists_map_insert_sql, songs_insert_sql, DBError, SQLitePlugin,
};

#[test]
fn escaping_single_quotes() {
    assert_eq!(escape_json("it's".to_string()), "it''s");
    assert_eq!(escape_json("''".to_string()), "''''");
    assert_eq!(escape_json("plain".to_string()), "plain");
    assert_eq!(escape_json("".to_string()), "");
}

#[test]
fn plugin_disabled_state() {
    let off = SQLitePlugin { path: "".to_string() };
    assert!(off.is_disabled());
    assert!(off.disabled());

    let on = SQLitePlugin { path: "songs.db".to_string() };
    assert!(!on.is_disabled());
    assert!(!on.disabled());
}

#[test]
fn history_name_is_reserved() {
    assert_eq!(history_playlist(), "_history");
    let err = create_playlist_name_check(&"_history".to_string()).unwrap_err();
    assert_eq!(err.message, "Cannot use this name for a database.");
    assert!(create_playlist_name_check(&"road trip".to_string()).is_ok());
}

#[test]
fn db_error_conversions() {
    let from_str: DBError = "boom".into();
    assert_eq!(from_str.message, "boom");
    let from_string: DBError = String::from("bigger boom").into();
    assert_eq!(from_string.message, "bigger boom");
    assert_eq!(DBError::from_text("text").text(), "text");
}

#[test]
fn unreadable_metadata_falls_back_to_link() {
    let info = fallback_info(&"https://example.com/t".to_string());
    assert_eq!(info.url, "https://example.com/t");
    assert_eq!(info.title, "https://example.com/t");
    assert_eq!(info.duration, 0);
    assert!(info.playlist.is_none());
}

#[test]
fn insert_songs_statement() {
    let songs = vec![
        ("https://a".to_string(), "{\"t\":\"x\"}".to_string()),
        ("https://b".to_string(), "it's".to_string()),
    ];
    assert_eq!(
        songs_insert_sql(&songs),
        "INSERT OR IGNORE INTO songs VALUES ('https://a', '{\"t\":\"x\"}'), ('https://b', 'it''s')"
    );
}

#[test]
fn map_songs_statement() {
    let urls = vec!["https://a".to_string(), "https://b".to_string()];
    assert_eq!(
        playlists_map_insert_sql(17, &urls),
        "INSERT OR REPLACE INTO playlists_map VALUES (NULL, '17', 'https://a'), (NULL, '17', 'https://b')"
    );
}

#[test]
fn signed_digits() {
    assert_eq!(i64_digits(0), "0");
    assert_eq!(i64_digits(-1), "-1");
    assert_eq!(i64_digits(9001), "9001");
    assert_eq!(i64_digits(i64::MIN), "-9223372036854775808");
}

#[test]
fn playlist_select_orders() {
    let newest_first = playlist_select_sql(true);
    let oldest_first = playlist_select_sql(false);
    assert!(newest_first.contains("ORDER BY id DESC"));
    assert!(oldest_first.contains("ORDER BY id ASC"));
    assert!(newest_first.contains("LIMIT :limit"));
    assert!(newest_first.contains("OFFSET :offset"));
    assert!(newest_first.starts_with("\n            SELECT playlists_map.song_url, songs.metadata"));
}
