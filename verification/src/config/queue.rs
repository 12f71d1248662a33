//! Settings of the paginated track listings.

use vstd::prelude::*;

verus! {

/// How many characters of a track title a listing row shows.
pub fn text_length(_guild_id: u64) -> (r: usize)
    ensures
        r == 60,
{
    60
}

/// How many rows one page of a listing shows.
pub fn page_size(_guild_id: u64) -> (r: usize)
    ensures
        r == 10,
{
    10
}

} // verus!
