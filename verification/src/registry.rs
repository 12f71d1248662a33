//! The process-wide directory from guild identifier to its player.
//!
//! The directory is the only state that the control paths of different
//! guilds share.  It is used for insert, remove and lookup alone; every
//! playback operation is delegated to the one guild's player, so guilds
//! never wait on each other.  The directory starts uninitialized and must be
//! initialized exactly once before any other operation.

use vstd::prelude::*;

use crate::media_info::MediaInfo;
use crate::message_context::MessageContext;
use crate::player::{
    enqueued, enqueued_batch, enqueued_next, cleared, quitted, read_queue_view, seek_decision,
    stop_handle, total_len, ChannelMediaPlayer, MediaItemView, PlayerError,
};
use std::collections::HashMap;

verus! {

broadcast use vstd::std_specs::hash::group_hash_axioms;

pub struct GlobalMediaPlayer {
    pub guild_media_player_map: Option<HashMap<u64, ChannelMediaPlayer>>,
}

impl GlobalMediaPlayer {
    /// Whether `init_self` has run.
    pub open spec fn is_init(&self) -> bool {
        self.guild_media_player_map is Some
    }

    /// The directory's contents.
    pub open spec fn map_view(&self) -> Map<u64, ChannelMediaPlayer>
        recommends
            self.is_init(),
    {
        self.guild_media_player_map->Some_0@
    }

    /// The directory before initialization.
    pub fn uninitialized() -> (r: GlobalMediaPlayer)
        ensures
            !r.is_init(),
    {
        GlobalMediaPlayer { guild_media_player_map: None }
    }

    /// One-time initialization.  Running it twice is a startup-ordering bug,
    /// so a second run is ruled out rather than recovered from.
    pub fn init_self(&mut self)
        requires
            !old(self).is_init(),
        ensures
            final(self).is_init(),
            final(self).map_view() == Map::<u64, ChannelMediaPlayer>::empty(),
    {
        self.guild_media_player_map = Some(HashMap::new());
    }

    /// Registers a fresh player for the guild: running, idle, empty queue.
    /// The caller spawns the worker bound to the guild's voice handle.
    /// Fails, and changes nothing, if the guild already has a player.
    pub fn start(&mut self, guild_id: u64) -> (r: Result<(), PlayerError>)
        requires
            old(self).is_init(),
        ensures
            final(self).is_init(),
            match r {
                Ok(()) => {
                    &&& !old(self).map_view().contains_key(guild_id)
                    &&& final(self).map_view().dom() == old(self).map_view().dom().insert(guild_id)
                    &&& forall|g: u64|
                        old(self).map_view().contains_key(g) && g != guild_id ==> final(self).map_view()[g] == old(self).map_view()[g]
                    &&& final(self).map_view()[guild_id].guild_id == guild_id
                    &&& final(self).map_view()[guild_id].media_queue@.running_state
                    &&& final(self).map_view()[guild_id].media_queue@.now_playing is None
                    &&& final(self).map_view()[guild_id].media_queue@.queue.len() == 0
                },
                Err(e) => {
                    &&& e == PlayerError::AlreadyConnected
                    &&& old(self).map_view().contains_key(guild_id)
                    &&& final(self).map_view() == old(self).map_view()
                },
            },
    {
        match &mut self.guild_media_player_map {
            Some(map) => {
                if map.contains_key(&guild_id) {
                    Err(PlayerError::AlreadyConnected)
                } else {
                    let player = ChannelMediaPlayer::create_and_initialize(guild_id);
                    map.insert(guild_id, player);
                    proof {
                        assert(self.map_view().dom() =~= old(self).map_view().dom().insert(
                            guild_id,
                        ));
                    }
                    Ok(())
                }
            },
            None => vstd::pervasive::unreached(),
        }
    }

    /// Removes the guild's player and asks it to shut down; hands back the
    /// handle to stop if a track was playing.  Fails if no player exists —
    /// in particular on any second quit for the same guild.
    pub fn quit(&mut self, guild_id: u64) -> (r: Result<Option<u64>, PlayerError>)
        requires
            old(self).is_init(),
        ensures
            final(self).is_init(),
            match r {
                Ok(stop) => {
                    &&& old(self).map_view().contains_key(guild_id)
                    &&& final(self).map_view() == old(self).map_view().remove(guild_id)
                    &&& stop == stop_handle(old(self).map_view()[guild_id].media_queue@)
                },
                Err(e) => {
                    &&& e == PlayerError::NotConnected
                    &&& !old(self).map_view().contains_key(guild_id)
                    &&& final(self).map_view() == old(self).map_view()
                },
            },
    {
        match &mut self.guild_media_player_map {
            Some(map) => {
                match map.remove(&guild_id) {
                    Some(mut player) => {
                        let stop = player.quit();
                        Ok(stop)
                    },
                    None => Err(PlayerError::NotConnected),
                }
            },
            None => vstd::pervasive::unreached(),
        }
    }

    /// The handle to stop so that the guild's current track is skipped;
    /// nothing playing is not an error.  Fails if no player exists.
    pub fn skip(&self, guild_id: u64) -> (r: Result<Option<u64>, PlayerError>)
        requires
            self.is_init(),
        ensures
            match r {
                Ok(stop) => self.map_view().contains_key(guild_id) && stop == stop_handle(
                    self.map_view()[guild_id].media_queue@,
                ),
                Err(e) => e == PlayerError::NotConnected && !self.map_view().contains_key(guild_id),
            },
    {
        match &self.guild_media_player_map {
            Some(map) => {
                match map.get(&guild_id) {
                    Some(player) => Ok(player.skip()),
                    None => Err(PlayerError::NotConnected),
                }
            },
            None => vstd::pervasive::unreached(),
        }
    }

    /// Decides a seek on the guild's current track and returns the handle to
    /// seek on.  Fails if no player exists.
    pub fn seek(&self, guild_id: u64, time: i64) -> (r: Result<u64, PlayerError>)
        requires
            self.is_init(),
        ensures
            match r {
                Ok(handle) => self.map_view().contains_key(guild_id) && Ok::<u64, PlayerError>(
                    handle,
                ) == seek_decision(self.map_view()[guild_id].media_queue@, time as int),
                Err(e) => if e == PlayerError::NotConnected {
                    !self.map_view().contains_key(guild_id)
                } else {
                    self.map_view().contains_key(guild_id) && Err::<u64, PlayerError>(e)
                        == seek_decision(self.map_view()[guild_id].media_queue@, time as int)
                },
            },
    {
        match &self.guild_media_player_map {
            Some(map) => {
                match map.get(&guild_id) {
                    Some(player) => player.seek(time),
                    None => Err(PlayerError::NotConnected),
                }
            },
            None => vstd::pervasive::unreached(),
        }
    }

    /// Reads one page of the guild's queue together with the total row
    /// count.  Fails if no player exists.
    pub fn read_queue(&self, guild_id: u64, start: usize, length: usize) -> (r: Result<
        (Vec<MediaInfo>, usize),
        PlayerError,
    >)
        requires
            self.is_init(),
            length >= 1,
            start + length <= usize::MAX,
            self.map_view().contains_key(guild_id) ==> total_len(
                self.map_view()[guild_id].media_queue@,
            ) <= usize::MAX,
        ensures
            match r {
                Ok(page) => {
                    &&& self.map_view().contains_key(guild_id)
                    &&& page.0@.map_values(|m: MediaInfo| m@) == read_queue_view(
                        self.map_view()[guild_id].media_queue@,
                        start as int,
                        length as int,
                    )
                    &&& page.1 == total_len(self.map_view()[guild_id].media_queue@)
                },
                Err(e) => e == PlayerError::NotConnected && !self.map_view().contains_key(guild_id),
            },
    {
        match &self.guild_media_player_map {
            Some(map) => {
                match map.get(&guild_id) {
                    Some(player) => Ok(player.read_queue(start, length)),
                    None => Err(PlayerError::NotConnected),
                }
            },
            None => vstd::pervasive::unreached(),
        }
    }

    /// The guild's current track and the handle to query its position, or
    /// nothing when idle.  Fails if no player exists.
    pub fn now_playing(&self, guild_id: u64) -> (r: Result<Option<(MediaInfo, u64)>, PlayerError>)
        requires
            self.is_init(),
        ensures
            match r {
                Ok(current) => {
                    &&& self.map_view().contains_key(guild_id)
                    &&& current is Some <==> self.map_view()[guild_id].media_queue@.now_playing
                        is Some
                    &&& current matches Some(p) ==> self.map_view()[guild_id].media_queue@.now_playing
                        matches Some(np) && p.0@ == np.0.info && p.1 == np.1
                },
                Err(e) => e == PlayerError::NotConnected && !self.map_view().contains_key(guild_id),
            },
    {
        match &self.guild_media_player_map {
            Some(map) => {
                match map.get(&guild_id) {
                    Some(player) => Ok(player.current_track()),
                    None => Err(PlayerError::NotConnected),
                }
            },
            None => vstd::pervasive::unreached(),
        }
    }

    /// Appends one track to the guild's queue.  Fails if no player exists.
    pub fn enqueue(&mut self, guild_id: u64, info: MediaInfo, message_ctx: MessageContext) -> (r:
        Result<(), PlayerError>)
        requires
            old(self).is_init(),
        ensures
            final(self).is_init(),
            match r {
                Ok(()) => {
                    &&& old(self).map_view().contains_key(guild_id)
                    &&& final(self).map_view().dom() == old(self).map_view().dom()
                    &&& forall|g: u64|
                        old(self).map_view().contains_key(g) && g != guild_id ==> final(self).map_view()[g] == old(self).map_view()[g]
                    &&& final(self).map_view()[guild_id].guild_id == old(self).map_view()[guild_id].guild_id
                    &&& final(self).map_view()[guild_id].media_queue@ == enqueued(
                        old(self).map_view()[guild_id].media_queue@,
                        MediaItemView { info: info@, message_ctx },
                    )
                },
                Err(e) => {
                    &&& e == PlayerError::NotConnected
                    &&& !old(self).map_view().contains_key(guild_id)
                    &&& final(self).map_view() == old(self).map_view()
                },
            },
    {
        match &mut self.guild_media_player_map {
            Some(map) => {
                match map.remove(&guild_id) {
                    Some(mut player) => {
                        player.enqueue(info, message_ctx);
                        map.insert(guild_id, player);
                        proof {
                            assert(self.map_view().dom() =~= old(self).map_view().dom());
                        }
                        Ok(())
                    },
                    None => Err(PlayerError::NotConnected),
                }
            },
            None => vstd::pervasive::unreached(),
        }
    }

    /// Appends a whole batch to the guild's queue, preserving its order.
    /// Fails if no player exists.
    pub fn enqueue_batch(
        &mut self,
        guild_id: u64,
        media_infos: Vec<MediaInfo>,
        message_ctx: MessageContext,
    ) -> (r: Result<(), PlayerError>)
        requires
            old(self).is_init(),
        ensures
            final(self).is_init(),
            match r {
                Ok(()) => {
                    &&& old(self).map_view().contains_key(guild_id)
                    &&& final(self).map_view().dom() == old(self).map_view().dom()
                    &&& forall|g: u64|
                        old(self).map_view().contains_key(g) && g != guild_id ==> final(self).map_view()[g] == old(self).map_view()[g]
                    &&& final(self).map_view()[guild_id].guild_id == old(self).map_view()[guild_id].guild_id
                    &&& final(self).map_view()[guild_id].media_queue@ == enqueued_batch(
                        old(self).map_view()[guild_id].media_queue@,
                        media_infos@.map_values(
                            |i: MediaInfo| MediaItemView { info: i@, message_ctx },
                        ),
                    )
                },
                Err(e) => {
                    &&& e == PlayerError::NotConnected
                    &&& !old(self).map_view().contains_key(guild_id)
                    &&& final(self).map_view() == old(self).map_view()
                },
            },
    {
        match &mut self.guild_media_player_map {
            Some(map) => {
                match map.remove(&guild_id) {
                    Some(mut player) => {
                        player.enqueue_batch(media_infos, message_ctx);
                        map.insert(guild_id, player);
                        proof {
                            assert(self.map_view().dom() =~= old(self).map_view().dom());
                        }
                        Ok(())
                    },
                    None => Err(PlayerError::NotConnected),
                }
            },
            None => vstd::pervasive::unreached(),
        }
    }

    /// Inserts one track at the removal end of the guild's queue, so that it
    /// plays next.  Fails if no player exists.
    pub fn enqueue_next(&mut self, guild_id: u64, info: MediaInfo, message_ctx: MessageContext) -> (
        r: Result<(), PlayerError>)
        requires
            old(self).is_init(),
        ensures
            final(self).is_init(),
            match r {
                Ok(()) => {
                    &&& old(self).map_view().contains_key(guild_id)
                    &&& final(self).map_view().dom() == old(self).map_view().dom()
                    &&& forall|g: u64|
                        old(self).map_view().contains_key(g) && g != guild_id ==> final(self).map_view()[g] == old(self).map_view()[g]
                    &&& final(self).map_view()[guild_id].guild_id == old(self).map_view()[guild_id].guild_id
                    &&& final(self).map_view()[guild_id].media_queue@ == enqueued_next(
                        old(self).map_view()[guild_id].media_queue@,
                        MediaItemView { info: info@, message_ctx },
                    )
                },
                Err(e) => {
                    &&& e == PlayerError::NotConnected
                    &&& !old(self).map_view().contains_key(guild_id)
                    &&& final(self).map_view() == old(self).map_view()
                },
            },
    {
        match &mut self.guild_media_player_map {
            Some(map) => {
                match map.remove(&guild_id) {
                    Some(mut player) => {
                        player.enqueue_next(info, message_ctx);
                        map.insert(guild_id, player);
                        proof {
                            assert(self.map_view().dom() =~= old(self).map_view().dom());
                        }
                        Ok(())
                    },
                    None => Err(PlayerError::NotConnected),
                }
            },
            None => vstd::pervasive::unreached(),
        }
    }

    /// Drops every pending entry of the guild's queue; the current track
    /// keeps playing.  Fails if no player exists.
    pub fn clear(&mut self, guild_id: u64) -> (r: Result<(), PlayerError>)
        requires
            old(self).is_init(),
        ensures
            final(self).is_init(),
            match r {
                Ok(()) => {
                    &&& old(self).map_view().contains_key(guild_id)
                    &&& final(self).map_view().dom() == old(self).map_view().dom()
                    &&& forall|g: u64|
                        old(self).map_view().contains_key(g) && g != guild_id ==> final(self).map_view()[g] == old(self).map_view()[g]
                    &&& final(self).map_view()[guild_id].guild_id == old(self).map_view()[guild_id].guild_id
                    &&& final(self).map_view()[guild_id].media_queue@ == cleared(
                        old(self).map_view()[guild_id].media_queue@,
                    )
                },
                Err(e) => {
                    &&& e == PlayerError::NotConnected
                    &&& !old(self).map_view().contains_key(guild_id)
                    &&& final(self).map_view() == old(self).map_view()
                },
            },
    {
        match &mut self.guild_media_player_map {
            Some(map) => {
                match map.remove(&guild_id) {
                    Some(mut player) => {
                        player.clear();
                        map.insert(guild_id, player);
                        proof {
                            assert(self.map_view().dom() =~= old(self).map_view().dom());
                        }
                        Ok(())
                    },
                    None => Err(PlayerError::NotConnected),
                }
            },
            None => vstd::pervasive::unreached(),
        }
    }
}

/// No double terminal transition: once a guild's player is removed, the
/// guild is no longer in the directory, so a second quit — and any further
/// operation on that guild — finds nothing and fails with `NotConnected`.
pub proof fn lemma_quit_is_terminal(m: Map<u64, ChannelMediaPlayer>, guild_id: u64)
    ensures
        !m.remove(guild_id).contains_key(guild_id),
{
}

} // verus!
