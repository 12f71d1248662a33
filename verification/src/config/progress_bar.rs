//! Settings of the now-playing progress bar.

use vstd::prelude::*;

verus! {

/// How many cells the progress bar has.
pub fn length(_guild_id: u64) -> (r: usize)
    ensures
        r == 40,
{
    40
}

/// The marker drawn at the playing position.
pub fn marker(_guild_id: u64) -> (r: String)
    ensures
        r@ == "\u{1f518}"@,
{
    String::from_str("\u{1f518}")
}

/// The cell drawn along the rest of the track.
pub fn track(_guild_id: u64) -> (r: String)
    ensures
        r@ == "\u{2500}"@,
{
    String::from_str("\u{2500}")
}

} // verus!
