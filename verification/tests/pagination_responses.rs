use mimicri::pagination::{ceil, pagination_buttons, pagination_delta, validate_page};
use mimicri::responses::{
    format_playlist_name_rows, format_track_row, format_track_rows, page_footer,
};
use mimicri::MediaInfo;

fn track(title: &str, duration: i64) -> MediaInfo {
    let mut info = MediaInfo::empty();
    info.title = title.to_string();
    info.url = format!("https://example.com/{}", title);
    info.duration = duration;
    info
}

#[test]
fn ceiling_division() {
    assert_eq!(ceil(10, 3), 4);
    assert_eq!(ceil(9, 3), 3);
    assert_eq!(ceil(1, 10), 1);
    assert_eq!(ceil(0, 10), 0);
}

#[test]
fn page_validation() {
    assert_eq!(validate_page(None), Ok(0));
    assert_eq!(validate_page(Some(1)), Ok(0));
    assert_eq!(validate_page(Some(5)), Ok(4));
    assert_eq!(
        validate_page(Some(0)),
        Err("Page no must be atleast 1".to_string())
    );
    assert_eq!(
        validate_page(Some(-3)),
        Err("Page no must be atleast 1".to_string())
    );
}

#[test]
fn pager_buttons() {
    assert_eq!(pagination_buttons(0, 1), (false, false));
    assert_eq!(pagination_buttons(0, 3), (false, true));
    assert_eq!(pagination_buttons(1, 3), (true, true));
    assert_eq!(pagination_buttons(2, 3), (true, false));
}

#[test]
fn pager_deltas() {
    assert_eq!(pagination_delta(&"123__back".to_string()), -1);
    assert_eq!(pagination_delta(&"123__next".to_string()), 1);
    assert_eq!(pagination_delta(&"123__other".to_string()), 0);
}

#[test]
fn track_row_text() {
    let row = format_track_row(0, 0, 10, &track("song", 90), 60);
    assert_eq!(row, "**1) [song](https://example.com/song)** (1:30)");

    // rows are numbered across pages
    let row = format_track_row(2, 1, 10, &track("song", 30), 60);
    assert_eq!(row, "**13) [song](https://example.com/song)** (0:30)");
}

#[test]
fn track_row_escapes_and_trims_title() {
    let row = format_track_row(0, 0, 10, &track("a*b", 10), 60);
    assert_eq!(row, "**1) [a\\*b](https://example.com/a*b)** (0:10)");
}

#[test]
fn track_rows_block() {
    let songs = vec![track("one", 61), track("two", 62)];
    let block = format_track_rows(&songs, 0, 10, 60);
    assert_eq!(
        block,
        "**1) [one](https://example.com/one)** (1:01)\n**2) [two](https://example.com/two)** (1:02)"
    );
    assert_eq!(format_track_rows(&vec![], 0, 10, 60), "");
}

#[test]
fn footer_text() {
    assert_eq!(page_footer(0, 23, 10), "Page 1 of 3 (23 track(s))");
    assert_eq!(page_footer(2, 30, 10), "Page 3 of 4 (30 track(s))");
}

#[test]
fn playlist_name_rows() {
    let names = vec!["jazz".to_string(), "metal".to_string()];
    assert_eq!(
        format_playlist_name_rows(&names),
        "1. **jazz**\n2. **metal**"
    );
}
