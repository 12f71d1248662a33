//! Classifying what a caller handed to the resolver: a playlist link or a
//! single track.  The resolver itself — the external tool that turns a query
//! into track metadata — is driven by the caller; only the decisions about
//! its input live here.

use vstd::prelude::*;

verus! {

/// Whether `needle` occurs contiguously anywhere in `hay`.
pub open spec fn contains_seq(hay: Seq<char>, needle: Seq<char>) -> bool {
    exists|i: int|
        0 <= i && i + needle.len() <= hay.len() && #[trigger] hay.subrange(i, i + needle.len())
            == needle
}

/// Whether `hay` holds `needle` starting at `at`.
pub open spec fn matches_at(hay: Seq<char>, needle: Seq<char>, at: int) -> bool {
    0 <= at && at + needle.len() <= hay.len() && hay.subrange(at, at + needle.len()) == needle
}

/// Whether `needle` occurs anywhere in `hay`.
pub fn contains_str(hay: &str, needle: &str) -> (r: bool)
    ensures
        r == contains_seq(hay@, needle@),
{
    let hay_len = hay.unicode_len();
    let needle_len = needle.unicode_len();
    if needle_len > hay_len {
        proof {
            assert(!contains_seq(hay@, needle@));
        }
        return false;
    }
    if needle_len == 0 {
        proof {
            assert(hay@.subrange(0, 0) =~= needle@);
            assert(matches_at(hay@, needle@, 0));
        }
        return true;
    }
    let bound = hay_len - needle_len;
    let mut i: usize = 0;
    while i <= bound
        invariant
            needle_len == needle@.len(),
            hay_len == hay@.len(),
            1 <= needle_len <= hay_len,
            bound == hay_len - needle_len,
            i <= bound + 1,
            forall|k: int| 0 <= k < i ==> !matches_at(hay@, needle@, k),
        decreases bound + 1 - i,
    {
        let mut j: usize = 0;
        let mut mismatch: bool = false;
        while j < needle_len
            invariant
                needle_len == needle@.len(),
                hay_len == hay@.len(),
                needle_len <= hay_len,
                i + needle_len <= hay_len,
                j <= needle_len,
                !mismatch ==> forall|k: int| 0 <= k < j ==> hay@[i + k] == needle@[k],
                mismatch ==> !matches_at(hay@, needle@, i as int),
            decreases needle_len - j,
        {
            if hay.get_char(i + j) != needle.get_char(j) {
                proof {
                    assert(hay@[i + j] != needle@[j as int]);
                    assert(!matches_at(hay@, needle@, i as int)) by {
                        if matches_at(hay@, needle@, i as int) {
                            assert(hay@.subrange(i as int, i + needle@.len())[j as int]
                                == needle@[j as int]);
                        }
                    };
                }
                mismatch = true;
            }
            j = j + 1;
        }
        if !mismatch {
            proof {
                assert(hay@.subrange(i as int, i + needle@.len()) =~= needle@);
                assert(matches_at(hay@, needle@, i as int));
            }
            return true;
        }
        i = i + 1;
    }
    proof {
        assert(!contains_seq(hay@, needle@)) by {
            if contains_seq(hay@, needle@) {
                let w = choose|k: int|
                    0 <= k && k + needle@.len() <= hay@.len() && #[trigger] hay@.subrange(
                        k,
                        k + needle@.len(),
                    ) == needle@;
                assert(matches_at(hay@, needle@, w));
            }
        };
    }
    false
}

/// Whether the link names the video site and carries a playlist list
/// parameter, either as a playlist page or riding on a watch link.
pub open spec fn is_playlist_view(url: Seq<char>) -> bool {
    contains_seq(url, "youtube.com"@) && (contains_seq(url, "/playlist?list="@) || contains_seq(
        url,
        "&list="@,
    ))
}

/// Whether the resolver should be asked for a whole playlist rather than a
/// single track.
pub fn is_playlist(url: &String) -> (r: bool)
    ensures
        r == is_playlist_view(url@),
{
    let s = url.as_str();
    contains_str(s, "youtube.com") && (contains_str(s, "/playlist?list=") || contains_str(
        s,
        "&list=",
    ))
}

} // verus!
