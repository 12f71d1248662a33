//! Response-routing context attached to each queued track.
//!
//! The scheduler never inspects it; it only carries it along so that whoever
//! requested a track can be notified of per-track failures.  The library
//! keeps the one datum its logic routes on — the channel identifier — as a
//! plain value; the transport handle that actually delivers a message lives
//! with the caller.

use vstd::prelude::*;

verus! {

#[derive(Clone, Copy, PartialEq, Eq, Structural, Debug)]
pub struct MessageContext {
    pub channel: u64,
}

impl MessageContext {
    pub fn new(channel: u64) -> (res: MessageContext)
        ensures
            res.channel == channel,
    {
        MessageContext { channel }
    }
}

} // verus!
