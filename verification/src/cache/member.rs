//! Members in the cache.

use crate::cache::Cache;
use crate::outside::share;
use crate::sets::copy_ids;
use crate::types::{Member, MemberUpdate, MemberView};
use std::collections::HashSet;
use std::sync::Arc;
use vstd::prelude::*;

verus! {

broadcast use vstd::std_specs::hash::group_hash_axioms;

impl Cache {
    /// The snapshot of the member, if it is held.
    pub fn get_member(&self, guild_id: u64, user_id: u64) -> (found: Option<Arc<Member>>)
        ensures
            found is Some <==> self@.members.contains_key((guild_id, user_id)),
            found matches Some(m) ==> m@ == self@.members[(guild_id, user_id)],
    {
        let key = crate::cache::member_key(guild_id, user_id);
        match self.members.get(&key) {
            Some(member) => Some(share(member)),
            None => None,
        }
    }

    /// Holds `member` under its identifiers, in place of what was held
    /// there, and enters it in its guild's roster. The member has a voice
    /// session exactly where it is in a voice channel.
    pub fn insert_member(
        &mut self,
        avatar_url: String,
        bot: bool,
        discriminator: u16,
        guild_id: u64,
        joined_voice_timestamp: Option<i64>,
        last_message_timestamp: Option<i64>,
        role_ids: HashSet<u64>,
        user_id: u64,
        username: String,
        voice_channel_id: Option<u64>,
        xp: i64,
    )
        requires
            old(self).wf(),
            voice_channel_id is Some <==> joined_voice_timestamp is Some,
        ensures
            final(self)@ == old(self)@.insert_member(
                MemberView {
                    avatar_url: avatar_url@,
                    bot,
                    discriminator,
                    guild_id,
                    joined_voice_timestamp,
                    last_message_timestamp,
                    role_ids: role_ids@,
                    user_id,
                    username: username@,
                    voice_channel_id,
                    xp,
                },
            ),
            final(self).wf(),
    {
        self.put_member(
            Member {
                avatar_url,
                bot,
                discriminator,
                guild_id,
                joined_voice_timestamp,
                last_message_timestamp,
                role_ids,
                user_id,
                username,
                voice_channel_id,
                xp,
            },
        );
        self.register_member(guild_id, user_id);
    }

    /// Forgets the member and strikes it from its guild's roster.
    pub fn remove_member(&mut self, guild_id: u64, user_id: u64)
        requires
            old(self).wf(),
        ensures
            final(self)@ == old(self)@.remove_member(guild_id, user_id),
            final(self).wf(),
    {
        let removed = match self.take_member(guild_id, user_id) {
            Some(removed) => removed,
            None => {
                assert(self@.members =~= old(self)@.members);
                return ;
            },
        };
        self.unregister_member(removed.guild_id, user_id);
    }

    /// Applies `update` to the member, where it is held: each field that it
    /// gives replaces the member's own. An update for a member that is not
    /// held is dropped. The updated member has a voice session exactly
    /// where it is in a voice channel.
    pub fn update_member(&mut self, guild_id: u64, user_id: u64, update: MemberUpdate)
        requires
            old(self).wf(),
            old(self)@.members.contains_key((guild_id, user_id)) ==> old(self)@.members[(
                guild_id,
                user_id,
            )].updated(update@).in_voice_consistently(),
        ensures
            final(self)@ == old(self)@.update_member(guild_id, user_id, update@),
            final(self).wf(),
    {
        let current = match self.get_member(guild_id, user_id) {
            Some(current) => current,
            None => {
                return ;
            },
        };
        let avatar_url = match update.avatar_url {
            Some(avatar_url) => avatar_url,
            None => current.avatar_url.clone(),
        };
        let discriminator = match update.discriminator {
            Some(discriminator) => discriminator,
            None => current.discriminator,
        };
        let joined_voice_timestamp = match update.joined_voice_timestamp {
            Some(timestamp) => timestamp,
            None => current.joined_voice_timestamp,
        };
        let last_message_timestamp = match update.last_message_timestamp {
            Some(timestamp) => timestamp,
            None => current.last_message_timestamp,
        };
        let role_ids = match update.role_ids {
            Some(role_ids) => role_ids,
            None => copy_ids(&current.role_ids),
        };
        let username = match update.username {
            Some(username) => username,
            None => current.username.clone(),
        };
        let voice_channel_id = match update.voice_channel_id {
            Some(channel_id) => channel_id,
            None => current.voice_channel_id,
        };
        let xp = match update.xp {
            Some(xp) => xp,
            None => current.xp,
        };
        self.put_member(
            Member {
                avatar_url,
                bot: current.bot,
                discriminator,
                guild_id,
                joined_voice_timestamp,
                last_message_timestamp,
                role_ids,
                user_id,
                username,
                voice_channel_id,
                xp,
            },
        );
    }
}

} // verus!
