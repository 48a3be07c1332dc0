//! Voice channels in the cache.

use crate::cache::Cache;
use crate::outside::share;
use crate::sets::copy_ids;
use crate::types::{Channel, ChannelInfo, ChannelUpdate};
use std::collections::HashSet;
use std::sync::Arc;
use vstd::prelude::*;

verus! {

broadcast use vstd::std_specs::hash::group_hash_axioms;

impl Cache {
    /// The snapshot of the channel, if it is held.
    pub fn get_channel(&self, channel_id: u64) -> (found: Option<Arc<Channel>>)
        ensures
            found is Some <==> self@.channels.contains_key(channel_id),
            found matches Some(c) ==> c@ == self@.channels[channel_id],
    {
        match self.channels.get(&channel_id) {
            Some(channel) => Some(share(channel)),
            None => None,
        }
    }

    /// Takes note of a channel that the platform announced. Only a voice
    /// channel of a guild is tracked: it is held with no occupants, in place
    /// of what was held under its identifier, and entered in its guild's
    /// channel list.
    pub fn insert_channel(&mut self, channel: ChannelInfo)
        requires
            old(self).wf(),
        ensures
            final(self)@ == old(self)@.insert_channel(channel),
            final(self).wf(),
    {
        if !channel.kind.is_voice() {
            return ;
        }
        let guild_id = match channel.guild_id {
            Some(guild_id) => guild_id,
            None => {
                return ;
            },
        };
        self.put_channel(Channel { channel_id: channel.id, guild_id, user_ids: HashSet::new() });
        self.register_channel(guild_id, channel.id);
    }

    /// Forgets the channel and strikes it from its guild's channel list.
    pub fn remove_channel(&mut self, channel_id: u64)
        requires
            old(self).wf(),
        ensures
            final(self)@ == old(self)@.remove_channel(channel_id),
            final(self).wf(),
    {
        let removed = match self.take_channel(channel_id) {
            Some(removed) => removed,
            None => {
                assert(self@.channels =~= old(self)@.channels);
                return ;
            },
        };
        self.unregister_channel(removed.guild_id, channel_id);
    }

    /// Applies `update` to the channel, where it is held: the occupants that
    /// it gives replace the channel's own.
    pub fn update_channel(&mut self, channel_id: u64, update: ChannelUpdate)
        requires
            old(self).wf(),
        ensures
            final(self)@ == old(self)@.update_channel(channel_id, update.user_ids_view()),
            final(self).wf(),
    {
        let current = match self.get_channel(channel_id) {
            Some(current) => current,
            None => {
                return ;
            },
        };
        let user_ids = match update.user_ids {
            Some(user_ids) => user_ids,
            None => copy_ids(&current.user_ids),
        };
        self.put_channel(Channel { channel_id: current.channel_id, guild_id: current.guild_id, user_ids });
    }
}

} // verus!
