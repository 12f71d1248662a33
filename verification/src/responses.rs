//! The texts of the embed bodies: the numbered track rows of a queue,
//! history or playlist page, the numbered playlist-name rows, and the page
//! footer.  The embed objects themselves belong to the chat layer; it takes
//! these finished texts.

use vstd::prelude::*;

use crate::media_info::MediaInfo;
use crate::strings::{
    dec_digits, escaped_view, format_timestamp_view, limited_view, escape_string,
    format_timestamp, limit_string_length, u64_digits,
};

verus! {

/// One track row: its number over all pages, its title trimmed and escaped
/// as a link on its address, and its duration.
pub open spec fn track_row_view(number: int, info: MediaInfo, text_length: int) -> Seq<char> {
    "**"@ + dec_digits(number) + ") ["@ + escaped_view(limited_view(info@.title, text_length))
        + "]("@ + info@.url + ")** ("@ + format_timestamp_view(info@.duration) + ")"@
}

/// Renders one track row of a paginated listing: entry `index` of the page,
/// numbered across pages.
pub fn format_track_row(
    index: usize,
    page: usize,
    page_size: usize,
    info: &MediaInfo,
    text_length: usize,
) -> (r: String)
    requires
        info.duration >= 0,
        index + 1 + page * page_size <= usize::MAX,
    ensures
        r@ == track_row_view(
            index + 1 + page * page_size,
            *info,
            text_length as int,
        ),
{
    let number = index + 1 + page * page_size;
    let mut r = String::from_str("**");
    let digits = u64_digits(number as u64);
    r.append(digits.as_str());
    r.append(") [");
    let title = escape_string(&limit_string_length(&info.title, text_length));
    r.append(title.as_str());
    r.append("](");
    r.append(info.url.as_str());
    r.append(")** (");
    let stamp = format_timestamp(info.duration);
    r.append(stamp.as_str());
    r.append(")");
    proof {
        reveal_strlit("**");
        reveal_strlit(") [");
        reveal_strlit("](");
        reveal_strlit(")** (");
        reveal_strlit(")");
        assert(r@ =~= track_row_view(index + 1 + page * page_size, *info, text_length as int));
    }
    r
}

/// The track rows of one page, joined with newlines.
pub open spec fn track_rows_view(
    songs: Seq<MediaInfo>,
    page: int,
    page_size: int,
    text_length: int,
) -> Seq<char>
    decreases songs.len(),
{
    if songs.len() == 0 {
        Seq::<char>::empty()
    } else if songs.len() == 1 {
        track_row_view(1 + page * page_size, songs[0], text_length)
    } else {
        track_rows_view(songs.drop_last(), page, page_size, text_length) + seq!['\n']
            + track_row_view(songs.len() as int + page * page_size, songs.last(), text_length)
    }
}

/// Renders the whole description block of one page of tracks.
pub fn format_track_rows(
    songs: &Vec<MediaInfo>,
    page: usize,
    page_size: usize,
    text_length: usize,
) -> (r: String)
    requires
        forall|i: int| 0 <= i < songs@.len() ==> (#[trigger] songs@[i]).duration >= 0,
        songs@.len() + page * page_size <= usize::MAX,
    ensures
        r@ == track_rows_view(songs@, page as int, page_size as int, text_length as int),
{
    let mut r = String::new();
    let mut i: usize = 0;
    while i < songs.len()
        invariant
            i <= songs@.len(),
            forall|j: int| 0 <= j < songs@.len() ==> (#[trigger] songs@[j]).duration >= 0,
            songs@.len() + page * page_size <= usize::MAX,
            r@ == track_rows_view(
                songs@.take(i as int),
                page as int,
                page_size as int,
                text_length as int,
            ),
        decreases songs.len() - i,
    {
        if i > 0 {
            r.append("\n");
        }
        let row = format_track_row(i, page, page_size, &songs[i], text_length);
        r.append(row.as_str());
        i = i + 1;
        proof {
            reveal_strlit("\n");
            assert(songs@.take(i as int).drop_last() =~= songs@.take(i - 1));
            assert(songs@.take(i as int).last() == songs@[i - 1]);
            assert(r@ =~= track_rows_view(
                songs@.take(i as int),
                page as int,
                page_size as int,
                text_length as int,
            ));
        }
    }
    proof {
        assert(songs@.take(songs@.len() as int) =~= songs@);
    }
    r
}

/// The page footer: the one-based page number, the page count the listing
/// shows, and the total row count.
pub open spec fn page_footer_view(page: int, total: int, page_size: int) -> Seq<char> {
    "Page "@ + dec_digits(page + 1) + " of "@ + dec_digits(total / page_size + 1) + " ("@
        + dec_digits(total) + " track(s))"@
}

/// Renders the page footer.
pub fn page_footer(page: usize, total: usize, page_size: usize) -> (r: String)
    requires
        page < usize::MAX,
        total < usize::MAX,
        page_size >= 1,
    ensures
        r@ == page_footer_view(page as int, total as int, page_size as int),
{
    let mut r = String::from_str("Page ");
    let p = u64_digits((page + 1) as u64);
    r.append(p.as_str());
    r.append(" of ");
    let pages = u64_digits((total / page_size + 1) as u64);
    r.append(pages.as_str());
    r.append(" (");
    let t = u64_digits(total as u64);
    r.append(t.as_str());
    r.append(" track(s))");
    proof {
        reveal_strlit("Page ");
        reveal_strlit(" of ");
        reveal_strlit(" (");
        reveal_strlit(" track(s))");
        assert(r@ =~= page_footer_view(page as int, total as int, page_size as int));
    }
    r
}

/// One playlist-name row: its one-based number and the name in bold.
pub open spec fn playlist_name_row_view(number: int, name: Seq<char>) -> Seq<char> {
    dec_digits(number) + ". **"@ + name + "**"@
}

/// The playlist-name rows, numbered from one, joined with newlines.
pub open spec fn playlist_name_rows_view(names: Seq<Seq<char>>) -> Seq<char>
    decreases names.len(),
{
    if names.len() == 0 {
        Seq::<char>::empty()
    } else if names.len() == 1 {
        playlist_name_row_view(1, names[0])
    } else {
        playlist_name_rows_view(names.drop_last()) + seq!['\n'] + playlist_name_row_view(
            names.len() as int,
            names.last(),
        )
    }
}

/// Renders the description block of a page of playlist names.
pub fn format_playlist_name_rows(names: &Vec<String>) -> (r: String)
    requires
        names@.len() < usize::MAX,
    ensures
        r@ == playlist_name_rows_view(names@.map_values(|n: String| n@)),
{
    let ghost nviews = names@.map_values(|n: String| n@);
    let mut r = String::new();
    let mut i: usize = 0;
    while i < names.len()
        invariant
            nviews == names@.map_values(|n: String| n@),
            i <= names@.len(),
            names@.len() == nviews.len(),
            names@.len() < usize::MAX,
            r@ == playlist_name_rows_view(nviews.take(i as int)),
        decreases names.len() - i,
    {
        if i > 0 {
            r.append("\n");
        }
        let digits = u64_digits((i + 1) as u64);
        r.append(digits.as_str());
        r.append(". **");
        r.append(names[i].as_str());
        r.append("**");
        i = i + 1;
        proof {
            reveal_strlit("\n");
            reveal_strlit(". **");
            reveal_strlit("**");
            assert(nviews[i - 1] == names@[i - 1]@);
            assert(nviews.take(i as int).drop_last() =~= nviews.take(i - 1));
            assert(nviews.take(i as int).last() == nviews[i - 1]);
            assert(r@ =~= playlist_name_rows_view(nviews.take(i as int)));
        }
    }
    proof {
        assert(nviews.take(nviews.len() as int) =~= nviews);
    }
    r
}

} // verus!
