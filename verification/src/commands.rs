//! The decisions the chat commands make between their calls to the outside
//! world: joining a voice channel, classifying a play query, shaping the
//! reply after queueing, vetting a playlist-creation request, and reading
//! the seek argument.  The calls themselves — gateway, resolver, playback —
//! stay with the caller; it hands the answers back in as plain values.

use vstd::prelude::*;

use crate::media_info::{MediaInfo, PlaylistInfo};
use crate::metadata;
use crate::metadata::is_playlist_view;
use crate::strings;
use crate::strings::{
    i64_text_ok, i64_text_value, split_view, starts_with_https, timestamp_in_range,
    timestamp_match, timestamp_value,
};

verus! {

/// What to do about the voice channel before playing: where the caller is,
/// where the bot is, and whether they agree.
#[derive(Clone, Copy, PartialEq, Eq, Structural, Debug)]
pub enum JoinDecision {
    /// The caller is in no voice channel; refuse.
    UserNotInVc,
    /// The bot already sits in a different channel; refuse.
    WrongChannel,
    /// The bot is already where the caller is; nothing to do.
    AlreadyTogether,
    /// Join this channel.
    Join(u64),
}

/// Decides whether the bot must join, refuse, or do nothing, from the
/// caller's and the bot's current voice channels.
pub fn vc_join_decision(user_vc: Option<u64>, bot_vc: Option<u64>) -> (r: JoinDecision)
    ensures
        match user_vc {
            None => r == JoinDecision::UserNotInVc,
            Some(u) => match bot_vc {
                Some(b) => if b == u {
                    r == JoinDecision::AlreadyTogether
                } else {
                    r == JoinDecision::WrongChannel
                },
                None => r == JoinDecision::Join(u),
            },
        },
{
    match user_vc {
        None => JoinDecision::UserNotInVc,
        Some(u) => match bot_vc {
            Some(b) => if b == u {
                JoinDecision::AlreadyTogether
            } else {
                JoinDecision::WrongChannel
            },
            None => JoinDecision::Join(u),
        },
    }
}

/// An empty play query is refused before anything else runs.
pub fn play_query_check(url: &String) -> (r: Result<(), String>)
    ensures
        match r {
            Ok(()) => url@.len() > 0,
            Err(m) => url@.len() == 0 && m@ == "You didn't send anything dumbass"@,
        },
{
    if url.as_str().unicode_len() == 0 {
        Err(String::from_str("You didn't send anything dumbass"))
    } else {
        Ok(())
    }
}

/// How a play query reaches the resolver.
#[derive(Clone, Copy, PartialEq, Eq, Structural, Debug)]
pub enum QueryPlan {
    /// Ask for the whole playlist.
    Playlist,
    /// Ask for the one track behind the link.
    SingleUrl,
    /// Ask the resolver to search for it.
    Search,
}

/// Classifies a play query: a playlist link when playlists are allowed, else
/// a direct link, else a search.
pub fn queue_variant_plan(query: &String, allow_playlists: bool) -> (r: QueryPlan)
    ensures
        r == if allow_playlists && is_playlist_view(query@) {
            QueryPlan::Playlist
        } else if starts_with_https(query@) {
            QueryPlan::SingleUrl
        } else {
            QueryPlan::Search
        },
{
    if allow_playlists && metadata::is_playlist(query) {
        QueryPlan::Playlist
    } else if strings::is_url(query) {
        QueryPlan::SingleUrl
    } else {
        QueryPlan::Search
    }
}

/// A fetched playlist must hold at least one track before it is queued.
pub fn playlist_not_empty_check(infos: &Vec<MediaInfo>) -> (r: Result<(), String>)
    ensures
        match r {
            Ok(()) => infos@.len() > 0,
            Err(m) => infos@.len() == 0 && m@ == "Playlist is empty!"@,
        },
{
    if infos.len() == 0 {
        Err(String::from_str("Playlist is empty!"))
    } else {
        Ok(())
    }
}

/// The reply to show once the resolver's tracks were queued.
pub enum PlayResponse {
    /// Nothing was queued.
    Nothing,
    /// One track was queued; show it.
    Single(MediaInfo),
    /// A playlist was queued; show its head line, falling back to the first
    /// track's own title and uploader when the playlist carries none.
    Playlist { title: String, uploader: String, count: usize, thumbnail: String, url: String },
}

/// Decides the reply after queueing: one track shows the track, several show
/// the playlist with the first track's data filling any gap.
pub fn play_response_plan(infos: Vec<MediaInfo>) -> (r: PlayResponse)
    ensures
        infos@.len() == 0 ==> r is Nothing,
        infos@.len() == 1 ==> (r matches PlayResponse::Single(info) && info@ == infos@[0]@),
        infos@.len() > 1 ==> (r matches PlayResponse::Playlist {
            title,
            uploader,
            count,
            thumbnail,
            url,
        } && count == infos@.len() && thumbnail@ == infos@[0]@.thumbnail && url@ == infos@[0]@.url
            && (match infos@[0]@.playlist {
            Some(p) => title@ == p.title && uploader@ == p.uploader,
            None => title@ == infos@[0]@.title && uploader@ == infos@[0]@.uploader,
        })),
{
    let count = infos.len();
    if count == 0 {
        PlayResponse::Nothing
    } else if count == 1 {
        let first = infos[0].clone();
        PlayResponse::Single(first)
    } else {
        let first = &infos[0];
        let (title, uploader): (String, String) = match &first.playlist {
            Some(p) => (p.title.clone(), p.uploader.clone()),
            None => (first.title.clone(), first.uploader.clone()),
        };
        PlayResponse::Playlist {
            title,
            uploader,
            count,
            thumbnail: first.thumbnail.clone(),
            url: first.url.clone(),
        }
    }
}

/// How a playlist-creation request is handled.
#[derive(Clone, Copy, PartialEq, Eq, Structural, Debug)]
pub enum CreatePlaylistPlan {
    /// A plain name: create an empty playlist under it.
    ByName,
    /// A playlist link: fetch its tracks and store them.
    FetchPlaylist,
    /// A link, but not a playlist link: refuse.
    RejectNotPlaylist,
}

/// Classifies a playlist-creation request: a link must be a playlist link;
/// anything else is taken as a name.
pub fn create_playlist_plan(playlist: &String) -> (r: CreatePlaylistPlan)
    ensures
        r == if starts_with_https(playlist@) {
            if is_playlist_view(playlist@) {
                CreatePlaylistPlan::FetchPlaylist
            } else {
                CreatePlaylistPlan::RejectNotPlaylist
            }
        } else {
            CreatePlaylistPlan::ByName
        },
{
    if strings::is_url(playlist) {
        if metadata::is_playlist(playlist) {
            CreatePlaylistPlan::FetchPlaylist
        } else {
            CreatePlaylistPlan::RejectNotPlaylist
        }
    } else {
        CreatePlaylistPlan::ByName
    }
}

/// A fetched playlist names the stored playlist through its first track,
/// which must carry playlist data; an empty fetch or a bare first track is
/// refused.
pub fn playlist_source_check(songs: &Vec<MediaInfo>) -> (r: Result<PlaylistInfo, String>)
    ensures
        songs@.len() == 0 ==> (r matches Err(m) && m@ == "Playlist is empty!"@),
        songs@.len() > 0 ==> match songs@[0]@.playlist {
            Some(p) => r matches Ok(pi) && pi@ == p,
            None => r matches Err(m) && m@ == "Couldn't retreive playlist data"@,
        },
{
    if songs.len() == 0 {
        Err(String::from_str("Playlist is empty!"))
    } else {
        match &songs[0].playlist {
            Some(p) => Ok(p.clone()),
            None => Err(String::from_str("Couldn't retreive playlist data")),
        }
    }
}

/// What the seek command decides for a given result of reading its
/// argument: a plain number is the time, else a timestamp-shaped argument
/// is folded, else the argument is refused; a negative time is refused.
pub open spec fn seek_input_spec(to: Seq<char>, r: Result<i64, String>) -> bool {
    let direct = i64_text_ok(to);
    let shaped = timestamp_match(to) is Some;
    if direct || shaped {
        let time = if direct {
            i64_text_value(to)
        } else {
            timestamp_value(split_view(to, ':'))
        };
        if time < 0 {
            r matches Err(m) && m@ == "Cannot seek to negative time."@
        } else {
            r matches Ok(t) && t as int == time
        }
    } else {
        r matches Err(m) && m@ == to + " isn't a valid timestamp."@
    }
}

/// Reads the seek argument: a plain number of seconds, or a
/// timestamp-shaped text, refused when it is neither or when it is
/// negative.  The argument's fold must stay in range where it is
/// timestamp-shaped.
pub fn parse_seek_input(to: &String) -> (r: Result<i64, String>)
    requires
        timestamp_match(to@) is Some ==> timestamp_in_range(split_view(to@, ':')),
    ensures
        seek_input_spec(to@, r),
{
    let direct = strings::try_parse_i64(to);
    let time: i64 = match direct {
        Some(v) => v,
        None => {
            if strings::is_timestamp(to) {
                strings::parse_timestamp(to)
            } else {
                let mut m = to.clone();
                m.append(" isn't a valid timestamp.");
                proof {
                    reveal_strlit(" isn't a valid timestamp.");
                }
                return Err(m);
            }
        },
    };
    if time < 0 {
        Err(String::from_str("Cannot seek to negative time."))
    } else {
        Ok(time)
    }
}

/// Reads the seek argument with the overflow guard made at run time:
/// nothing is decided — and `None` comes back — exactly when the argument
/// is timestamp-shaped but folds outside a signed 64-bit number.
pub fn seek_input(to: &String) -> (r: Option<Result<i64, String>>)
    ensures
        match r {
            Some(x) => seek_input_spec(to@, x),
            None => timestamp_match(to@) is Some && !timestamp_in_range(split_view(to@, ':')),
        },
{
    if strings::is_timestamp(to) {
        let parts = strings::split_at_char(to.as_str(), ':');
        if !strings::timestamp_parts_in_range(&parts) {
            return None;
        }
    }
    Some(parse_seek_input(to))
}

} // verus!
