//! Immutable description of one playable track.

use vstd::prelude::*;

verus! {

/// Title and uploader of the playlist a track was found in.
#[derive(Debug, PartialEq)]
pub struct PlaylistInfo {
    pub title: String,
    pub uploader: String,
}

/// Mathematical value of a [`PlaylistInfo`].
pub struct PlaylistInfoView {
    pub title: Seq<char>,
    pub uploader: Seq<char>,
}

impl View for PlaylistInfo {
    type V = PlaylistInfoView;

    open spec fn view(&self) -> PlaylistInfoView {
        PlaylistInfoView { title: self.title@, uploader: self.uploader@ }
    }
}

impl Clone for PlaylistInfo {
    fn clone(&self) -> (res: Self)
        ensures
            res@ == self@,
    {
        PlaylistInfo { title: self.title.clone(), uploader: self.uploader.clone() }
    }
}

/// Everything the scheduler knows about one track.  Produced once by the
/// metadata resolver and never mutated afterwards.
#[derive(Debug, PartialEq)]
pub struct MediaInfo {
    pub url: String,
    pub title: String,
    pub duration: i64,
    pub description: String,
    pub thumbnail: String,
    pub uploader: String,
    pub playlist: Option<PlaylistInfo>,
}

/// Mathematical value of a [`MediaInfo`].
pub struct MediaInfoView {
    pub url: Seq<char>,
    pub title: Seq<char>,
    pub duration: int,
    pub description: Seq<char>,
    pub thumbnail: Seq<char>,
    pub uploader: Seq<char>,
    pub playlist: Option<PlaylistInfoView>,
}

impl View for MediaInfo {
    type V = MediaInfoView;

    open spec fn view(&self) -> MediaInfoView {
        MediaInfoView {
            url: self.url@,
            title: self.title@,
            duration: self.duration as int,
            description: self.description@,
            thumbnail: self.thumbnail@,
            uploader: self.uploader@,
            playlist: match self.playlist {
                Some(p) => Some(p@),
                None => None,
            },
        }
    }
}

impl Clone for MediaInfo {
    fn clone(&self) -> (res: Self)
        ensures
            res@ == self@,
    {
        MediaInfo {
            url: self.url.clone(),
            title: self.title.clone(),
            duration: self.duration,
            description: self.description.clone(),
            thumbnail: self.thumbnail.clone(),
            uploader: self.uploader.clone(),
            playlist: match &self.playlist {
                Some(p) => Some(p.clone()),
                None => None,
            },
        }
    }
}

/// The value of the placeholder track: every text field empty, no duration,
/// no playlist.
pub open spec fn empty_info_view() -> MediaInfoView {
    MediaInfoView {
        url: Seq::<char>::empty(),
        title: Seq::<char>::empty(),
        duration: 0,
        description: Seq::<char>::empty(),
        thumbnail: Seq::<char>::empty(),
        uploader: Seq::<char>::empty(),
        playlist: None,
    }
}

impl MediaInfo {
    /// The placeholder track used where a slot must be filled but nothing is
    /// known (for example the now-playing row of a paginated queue read when
    /// nothing is playing).
    pub fn empty() -> (res: MediaInfo)
        ensures
            res@ == empty_info_view(),
    {
        let res = MediaInfo {
            url: String::new(),
            title: String::new(),
            duration: 0,
            description: String::new(),
            thumbnail: String::new(),
            uploader: String::new(),
            playlist: None,
        };
        proof {
            assert(res@ =~= empty_info_view());
        }
        res
    }

    /// The same placeholder under its older name.
    pub fn empty_media_info() -> (res: MediaInfo)
        ensures
            res@ == empty_info_view(),
    {
        MediaInfo::empty()
    }
}

} // verus!
