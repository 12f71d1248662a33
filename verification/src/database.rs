//! The storage plugin's own logic: its error type, the disabled state, the
//! escaping of values bound into statements, and the exact statement texts.
//! Opening the database file and running the statements is the caller's
//! work; it passes values in and statement texts out as plain strings.

use vstd::prelude::*;

use crate::media_info::{empty_info_view, MediaInfo, MediaInfoView};
use crate::strings::{dec_digits, u64_digits};

verus! {

/// The playlist name under which listening history is stored.
pub open spec fn history_playlist_view() -> Seq<char> {
    "_history"@
}

/// The reserved history playlist name.
pub fn history_playlist() -> (r: String)
    ensures
        r@ == history_playlist_view(),
{
    String::from_str("_history")
}

/// What a storage operation failed with.
#[derive(Debug)]
pub struct DBError {
    pub message: String,
}

impl DBError {
    /// Builds an error from its text.
    pub fn from_text(message: &str) -> (r: DBError)
        ensures
            r.message@ == message@,
    {
        DBError { message: String::from_str(message) }
    }

    /// The error's text.
    pub fn text(&self) -> (r: String)
        ensures
            r@ == self.message@,
    {
        self.message.clone()
    }
}

impl<'a> From<&'a str> for DBError {
    fn from(s: &'a str) -> (r: Self) {
        DBError { message: String::from_str(s) }
    }
}

impl<'a> vstd::std_specs::convert::FromSpecImpl<&'a str> for DBError {
    open spec fn obeys_from_spec() -> bool {
        false
    }

    open spec fn from_spec(v: &'a str) -> Self {
        arbitrary()
    }
}

impl From<String> for DBError {
    fn from(s: String) -> (r: Self) {
        DBError { message: s }
    }
}

impl vstd::std_specs::convert::FromSpecImpl<String> for DBError {
    open spec fn obeys_from_spec() -> bool {
        true
    }

    open spec fn from_spec(v: String) -> Self {
        DBError { message: v }
    }
}

/// The SQLite-backed storage plugin: a database file path, with the empty
/// path meaning that storage is switched off.
pub struct SQLitePlugin {
    pub path: String,
}

impl SQLitePlugin {
    /// Whether the plugin is switched off: no database file was configured.
    pub fn is_disabled(&self) -> (r: bool)
        ensures
            r == (self.path@.len() == 0),
    {
        self.path.as_str().unicode_len() == 0
    }

    /// The disabled state as callers query it.
    pub fn disabled(&self) -> (r: bool)
        ensures
            r == (self.path@.len() == 0),
    {
        self.is_disabled()
    }
}

/// A value with every single quote doubled, the SQLite way of putting it
/// inside a quoted literal.
pub open spec fn sql_escaped_view(s: Seq<char>) -> Seq<char>
    decreases s.len(),
{
    if s.len() == 0 {
        Seq::<char>::empty()
    } else {
        sql_escaped_view(s.drop_last()) + (if s.last() == '\'' {
            seq!['\'', '\'']
        } else {
            seq![s.last()]
        })
    }
}

/// Doubles every single quote, so the value can stand inside a quoted
/// SQLite literal.
pub fn escape_json(json: String) -> (r: String)
    ensures
        r@ == sql_escaped_view(json@),
{
    let s = json.as_str();
    let n = s.unicode_len();
    let mut out = String::new();
    let mut i: usize = 0;
    while i < n
        invariant
            n == s@.len(),
            s@ == json@,
            i <= n,
            out@ == sql_escaped_view(s@.take(i as int)),
        decreases n - i,
    {
        let c = s.get_char(i);
        if c == '\'' {
            out.append("''");
        } else {
            let piece = s.substring_char(i, i + 1);
            out.append(piece);
        }
        i = i + 1;
        proof {
            reveal_strlit("''");
            assert(s@.take(i as int).drop_last() =~= s@.take(i - 1));
            assert(s@.take(i as int).last() == c);
            assert(out@ =~= sql_escaped_view(s@.take(i as int)));
        }
    }
    proof {
        assert(s@.take(n as int) =~= json@);
    }
    out
}

/// The reserved history name may not be taken by a user playlist.
pub fn create_playlist_name_check(name: &String) -> (r: Result<(), DBError>)
    ensures
        match r {
            Ok(()) => name@ != history_playlist_view(),
            Err(e) => name@ == history_playlist_view() && e.message@
                == "Cannot use this name for a database."@,
        },
{
    let reserved = history_playlist();
    if *name == reserved {
        Err(DBError::from_text("Cannot use this name for a database."))
    } else {
        Ok(())
    }
}

/// The row shown for a stored track whose metadata cannot be read back: the
/// link serves as both address and title.
pub fn fallback_info(url: &String) -> (r: MediaInfo)
    ensures
        r@ == (MediaInfoView {
            url: url@,
            title: url@,
            ..empty_info_view()
        }),
{
    let mut info = MediaInfo::empty();
    info.url = url.clone();
    info.title = url.clone();
    proof {
        assert(info@ =~= (MediaInfoView { url: url@, title: url@, ..empty_info_view() }));
    }
    info
}

/// One `('url', 'metadata')` tuple of the insert-songs statement; the
/// metadata is escaped, the link is bound as the caller passes it.
pub open spec fn song_value_view(url: Seq<char>, json: Seq<char>) -> Seq<char> {
    "('"@ + url + "', '"@ + sql_escaped_view(json) + "')"@
}

/// The `(url, metadata)` tuples of the insert-songs statement, joined with
/// commas.
pub open spec fn songs_values_view(songs: Seq<(Seq<char>, Seq<char>)>) -> Seq<char>
    decreases songs.len(),
{
    if songs.len() == 0 {
        Seq::<char>::empty()
    } else if songs.len() == 1 {
        song_value_view(songs[0].0, songs[0].1)
    } else {
        songs_values_view(songs.drop_last()) + ", "@ + song_value_view(
            songs.last().0,
            songs.last().1,
        )
    }
}

/// The full insert-songs statement for a batch of `(url, metadata)` pairs.
pub open spec fn songs_insert_sql_view(songs: Seq<(Seq<char>, Seq<char>)>) -> Seq<char> {
    "INSERT OR IGNORE INTO songs VALUES "@ + songs_values_view(songs)
}

/// Builds the insert-songs statement for a batch of `(url, metadata)`
/// pairs.
pub fn songs_insert_sql(songs: &Vec<(String, String)>) -> (r: String)
    ensures
        r@ == songs_insert_sql_view(
            songs@.map_values(|p: (String, String)| (p.0@, p.1@)),
        ),
{
    proof {
        reveal_strlit("INSERT OR IGNORE INTO songs VALUES ");
        reveal_strlit("('");
        reveal_strlit("', '");
        reveal_strlit("')");
        reveal_strlit(", ");
    }
    let ghost pairs = songs@.map_values(|p: (String, String)| (p.0@, p.1@));
    let mut out = String::from_str("INSERT OR IGNORE INTO songs VALUES ");
    let mut k: usize = 0;
    while k < songs.len()
        invariant
            pairs == songs@.map_values(|p: (String, String)| (p.0@, p.1@)),
            k <= songs.len(),
            songs@.len() == pairs.len(),
            out@ == "INSERT OR IGNORE INTO songs VALUES "@ + songs_values_view(
                pairs.take(k as int),
            ),
        decreases songs.len() - k,
    {
        if k > 0 {
            out.append(", ");
        }
        out.append("('");
        out.append(songs[k].0.as_str());
        out.append("', '");
        let escaped = escape_json(songs[k].1.clone());
        out.append(escaped.as_str());
        out.append("')");
        k = k + 1;
        proof {
            reveal_strlit("INSERT OR IGNORE INTO songs VALUES ");
            reveal_strlit("('");
            reveal_strlit("', '");
            reveal_strlit("')");
            reveal_strlit(", ");
            assert(pairs[k - 1] == (songs@[k - 1].0@, songs@[k - 1].1@));
            assert(pairs.take(k as int).drop_last() =~= pairs.take(k - 1));
            assert(pairs.take(k as int).last() == pairs[k - 1]);
            if k == 1 {
                assert(pairs.take(1).len() == 1);
                assert(out@ =~= "INSERT OR IGNORE INTO songs VALUES "@ + songs_values_view(
                    pairs.take(k as int),
                ));
            } else {
                assert(out@ =~= "INSERT OR IGNORE INTO songs VALUES "@ + songs_values_view(
                    pairs.take(k as int),
                ));
            }
        }
    }
    proof {
        assert(pairs.take(pairs.len() as int) =~= pairs);
    }
    out
}

/// The decimal rendering of a signed number.
pub open spec fn signed_dec_digits(n: int) -> Seq<char> {
    if n < 0 {
        seq!['-'] + dec_digits(-n)
    } else {
        dec_digits(n)
    }
}

/// Renders a signed 64-bit number in decimal.
pub fn i64_digits(n: i64) -> (r: String)
    ensures
        r@ == signed_dec_digits(n as int),
{
    if n >= 0 {
        u64_digits(n as u64)
    } else {
        let mag: u64 = if n == i64::MIN {
            9223372036854775808
        } else {
            (-n) as u64
        };
        let mut out = String::from_str("-");
        let digits = u64_digits(mag);
        out.append(digits.as_str());
        proof {
            reveal_strlit("-");
            assert(out@ =~= signed_dec_digits(n as int));
        }
        out
    }
}

/// One `(NULL, 'playlist id', 'url')` tuple of the map-songs-to-playlist
/// statement.
pub open spec fn map_value_view(playlist_id: int, url: Seq<char>) -> Seq<char> {
    "(NULL, '"@ + signed_dec_digits(playlist_id) + "', '"@ + url + "')"@
}

/// The tuples of the map-songs-to-playlist statement, joined with commas.
pub open spec fn map_values_view(playlist_id: int, urls: Seq<Seq<char>>) -> Seq<char>
    decreases urls.len(),
{
    if urls.len() == 0 {
        Seq::<char>::empty()
    } else if urls.len() == 1 {
        map_value_view(playlist_id, urls[0])
    } else {
        map_values_view(playlist_id, urls.drop_last()) + ", "@ + map_value_view(
            playlist_id,
            urls.last(),
        )
    }
}

/// The full statement tying a batch of stored songs to a playlist.
pub open spec fn playlists_map_insert_sql_view(playlist_id: int, urls: Seq<Seq<char>>) -> Seq<
    char,
> {
    "INSERT OR REPLACE INTO playlists_map VALUES "@ + map_values_view(playlist_id, urls)
}

/// Builds the statement tying a batch of stored songs to a playlist.
pub fn playlists_map_insert_sql(playlist_id: i64, urls: &Vec<String>) -> (r: String)
    ensures
        r@ == playlists_map_insert_sql_view(
            playlist_id as int,
            urls@.map_values(|u: String| u@),
        ),
{
    proof {
        reveal_strlit("INSERT OR REPLACE INTO playlists_map VALUES ");
        reveal_strlit("(NULL, '");
        reveal_strlit("', '");
        reveal_strlit("')");
        reveal_strlit(", ");
    }
    let ghost uviews = urls@.map_values(|u: String| u@);
    let id_digits = i64_digits(playlist_id);
    let mut out = String::from_str("INSERT OR REPLACE INTO playlists_map VALUES ");
    let mut k: usize = 0;
    while k < urls.len()
        invariant
            uviews == urls@.map_values(|u: String| u@),
            k <= urls.len(),
            urls@.len() == uviews.len(),
            id_digits@ == signed_dec_digits(playlist_id as int),
            out@ == "INSERT OR REPLACE INTO playlists_map VALUES "@ + map_values_view(
                playlist_id as int,
                uviews.take(k as int),
            ),
        decreases urls.len() - k,
    {
        if k > 0 {
            out.append(", ");
        }
        out.append("(NULL, '");
        out.append(id_digits.as_str());
        out.append("', '");
        out.append(urls[k].as_str());
        out.append("')");
        k = k + 1;
        proof {
            reveal_strlit("INSERT OR REPLACE INTO playlists_map VALUES ");
            reveal_strlit("(NULL, '");
            reveal_strlit("', '");
            reveal_strlit("')");
            reveal_strlit(", ");
            assert(uviews[k - 1] == urls@[k - 1]@);
            assert(uviews.take(k as int).drop_last() =~= uviews.take(k - 1));
            assert(uviews.take(k as int).last() == uviews[k - 1]);
            assert(out@ =~= "INSERT OR REPLACE INTO playlists_map VALUES "@ + map_values_view(
                playlist_id as int,
                uviews.take(k as int),
            ));
        }
    }
    proof {
        assert(uviews.take(uviews.len() as int) =~= uviews);
    }
    out
}

/// The select statement for one page of a stored playlist, oldest first or,
/// for history, newest first.
pub open spec fn playlist_select_sql_view(reverse: bool) -> Seq<char> {
    "\n            SELECT playlists_map.song_url, songs.metadata\n            FROM playlists_map \n            INNER JOIN songs ON songs.url=playlists_map.song_url\n            WHERE playlists_map.playlist_id=(\n                SELECT id\n                FROM playlists\n                WHERE user_id=:user_id AND name=:playlist_name\n            )\n            ORDER BY id "@
        + (if reverse {
        "DESC"@
    } else {
        "ASC"@
    }) + "\n            LIMIT :limit\n            OFFSET :offset\n            "@
}

/// Builds the select statement for one page of a stored playlist.
pub fn playlist_select_sql(reverse: bool) -> (r: String)
    ensures
        r@ == playlist_select_sql_view(reverse),
{
    let mut out = String::from_str(
        "\n            SELECT playlists_map.song_url, songs.metadata\n            FROM playlists_map \n            INNER JOIN songs ON songs.url=playlists_map.song_url\n            WHERE playlists_map.playlist_id=(\n                SELECT id\n                FROM playlists\n                WHERE user_id=:user_id AND name=:playlist_name\n            )\n            ORDER BY id ",
    );
    if reverse {
        out.append("DESC");
    } else {
        out.append("ASC");
    }
    out.append("\n            LIMIT :limit\n            OFFSET :offset\n            ");
    out
}

} // verus!
