//! Guilds in the cache.

use crate::cache::Cache;
use crate::cache::model::{
    lemma_named_ids_step, members_listed, roster_user_ids, user_ids_of, voice_channel_ids, voice_ids_of,
    CacheView,
};
use crate::outside::{share, unix_now, CLOCK_LIMIT};
use crate::sets::{copy_ids, ids_from_vec, lemma_take_to_set_step};
use crate::types::{
    copy_level_roles, level_roles_valid, level_roles_view, ChannelInfo, Guild, GuildUpdate, LevelRoles,
    RosterMember,
    roster_view,
};
use crate::xp::Multiplier;
use std::collections::HashSet;
use std::sync::Arc;
use vstd::prelude::*;

verus! {

broadcast use vstd::std_specs::hash::group_hash_axioms;

/// A guild of its own that equals `guild`.
pub(crate) fn copy_guild(guild: &Guild) -> (copy: Guild)
    ensures
        copy@ == guild@,
        copy.guild_id == guild.guild_id,
{
    Guild {
        channel_ids: copy_ids(&guild.channel_ids),
        guild_id: guild.guild_id,
        levels: copy_level_roles(&guild.levels),
        member_ids: copy_ids(&guild.member_ids),
        name: guild.name.clone(),
        xp_multiplier: guild.xp_multiplier,
    }
}

impl Cache {
    /// The snapshot of the guild, if it is held.
    pub fn get_guild(&self, guild_id: u64) -> (found: Option<Arc<Guild>>)
        ensures
            found is Some <==> self@.guilds.contains_key(guild_id),
            found matches Some(g) ==> g@ == self@.guilds[guild_id],
    {
        match self.guilds.get(&guild_id) {
            Some(guild) => Some(share(guild)),
            None => None,
        }
    }

    /// Takes note of a guild observed in full at the second `now`. Its
    /// channels are announced as its own and its roster is entered, each
    /// member that is in a voice channel with a session that begins at
    /// `now`; then the guild is held with its voice channels in its channel
    /// list and every roster entry in its roster, in place of what was held
    /// under its identifier, and is no longer marked as unavailable.
    pub fn insert_guild_at(
        &mut self,
        channels: Vec<ChannelInfo>,
        guild_id: u64,
        levels: LevelRoles,
        members: Vec<RosterMember>,
        name: String,
        xp_multiplier: Multiplier,
        now: i64,
    )
        requires
            old(self).wf(),
            level_roles_valid(level_roles_view(levels@)),
        ensures
            final(self)@ == old(self)@.insert_guild(
                channels@,
                guild_id,
                level_roles_view(levels@),
                roster_view(members@),
                name@,
                xp_multiplier@,
                now,
            ),
            final(self).wf(),
    {
        let ghost roster = roster_view(members@);
        let mut channel_ids: HashSet<u64> = HashSet::new();
        let mut member_ids: HashSet<u64> = HashSet::new();
        let mut i: usize = 0;
        assert(channel_ids@ =~= voice_channel_ids(channels@.take(0)));
        while i < channels.len()
            invariant
                i <= channels.len(),
                self.wf(),
                self@ == old(self)@.insert_channels(guild_id, channels@.take(i as int)),
                channel_ids@ == voice_channel_ids(channels@.take(i as int)),
            decreases channels.len() - i,
        {
            proof {
                let longer = channels@.take(i + 1);
                assert(longer.drop_last() == channels@.take(i as int));
                assert(longer.last() == channels@[i as int]);
                lemma_named_ids_step(voice_ids_of(channels@), i as int);
                assert(voice_ids_of(channels@).take(i as int) =~= voice_ids_of(channels@.take(i as int)));
                assert(voice_ids_of(channels@).take(i + 1) =~= voice_ids_of(longer));
            }
            let channel = channels[i];
            if channel.kind.is_voice() {
                channel_ids.insert(channel.id);
            }
            self.insert_channel(ChannelInfo { id: channel.id, guild_id: Some(guild_id), kind: channel.kind });
            i += 1;
        }
        assert(channels@.take(channels.len() as int) == channels@);
        let mut j: usize = 0;
        assert(member_ids@ =~= roster_user_ids(roster.take(0)));
        while j < members.len()
            invariant
                j <= members.len(),
                self.wf(),
                roster == roster_view(members@),
                self@ == old(self)@.insert_channels(guild_id, channels@).insert_roster(
                    guild_id,
                    roster.take(j as int),
                    now,
                ),
                member_ids@ == roster_user_ids(roster.take(j as int)),
            decreases members.len() - j,
        {
            proof {
                let longer = roster.take(j + 1);
                assert(longer.drop_last() == roster.take(j as int));
                assert(longer.last() == members@[j as int]@);
                lemma_named_ids_step(user_ids_of(roster), j as int);
                assert(user_ids_of(roster).take(j as int) =~= user_ids_of(roster.take(j as int)));
                assert(user_ids_of(roster).take(j + 1) =~= user_ids_of(longer));
            }
            let member = &members[j];
            member_ids.insert(member.user_id);
            let joined_voice_timestamp = match member.voice_channel_id {
                Some(_) => Some(now),
                None => None,
            };
            self.insert_member(
                member.avatar_url.clone(),
                member.bot,
                member.discriminator,
                guild_id,
                joined_voice_timestamp,
                member.last_message_timestamp,
                ids_from_vec(&member.role_ids),
                member.user_id,
                member.username.clone(),
                member.voice_channel_id,
                member.xp,
            );
            j += 1;
        }
        assert(roster.take(members.len() as int) == roster);
        self.put_guild(Guild { channel_ids, guild_id, levels, member_ids, name, xp_multiplier });
        self.remove_unavailable_guild(guild_id);
    }

    /// Takes note of a guild observed in full now: `insert_guild_at` at the
    /// second that the clock gives.
    pub fn insert_guild(
        &mut self,
        channels: Vec<ChannelInfo>,
        guild_id: u64,
        levels: LevelRoles,
        members: Vec<RosterMember>,
        name: String,
        xp_multiplier: Multiplier,
    )
        requires
            old(self).wf(),
            level_roles_valid(level_roles_view(levels@)),
        ensures
            exists|now: i64|
                -CLOCK_LIMIT <= now <= CLOCK_LIMIT && final(self)@ == #[trigger] old(self)@.insert_guild(
                    channels@,
                    guild_id,
                    level_roles_view(levels@),
                    roster_view(members@),
                    name@,
                    xp_multiplier@,
                    now,
                ),
            final(self).wf(),
    {
        let now = unix_now();
        self.insert_guild_at(channels, guild_id, levels, members, name, xp_multiplier, now);
    }

    /// Takes note that a guild has gone: the guild, every channel of it and
    /// every member of it are forgotten, whether the guild listed them or
    /// not, and whatever belongs to another guild stays as it was. Where
    /// `unavailable` is set the guild is marked as unavailable.
    pub fn remove_guild(&mut self, guild_id: u64, unavailable: bool)
        requires
            old(self).wf(),
        ensures
            final(self)@ == old(self)@.remove_guild(guild_id, unavailable),
            final(self)@.holds_nothing_of(guild_id),
            final(self).wf(),
    {
        if unavailable {
            self.insert_unavailable_guild(guild_id);
        }
        self.take_guild(guild_id);
        let ghost base = self@;
        let channel_ids = self.channel_ids_of(guild_id);
        let mut i: usize = 0;
        assert(base.channels.remove_keys(channel_ids@.take(0).to_set()) =~= base.channels);
        while i < channel_ids.len()
            invariant
                i <= channel_ids.len(),
                self@ == (CacheView {
                    channels: base.channels.remove_keys(channel_ids@.take(i as int).to_set()),
                    ..base
                }),
            decreases channel_ids.len() - i,
        {
            proof {
                lemma_take_to_set_step(channel_ids@, i as int);
            }
            self.take_channel(channel_ids[i]);
            assert(self@.channels =~= base.channels.remove_keys(channel_ids@.take(i + 1).to_set()));
            i += 1;
        }
        let user_ids = self.member_ids_of(guild_id);
        let mut j: usize = 0;
        assert(channel_ids@.take(channel_ids.len() as int) == channel_ids@);
        assert(base.members.remove_keys(members_listed(guild_id, user_ids@.take(0))) =~= base.members);
        while j < user_ids.len()
            invariant
                j <= user_ids.len(),
                self@ == (CacheView {
                    channels: base.channels.remove_keys(channel_ids@.to_set()),
                    members: base.members.remove_keys(members_listed(guild_id, user_ids@.take(j as int))),
                    ..base
                }),
            decreases user_ids.len() - j,
        {
            proof {
                lemma_take_to_set_step(user_ids@, j as int);
            }
            self.take_member(guild_id, user_ids[j]);
            assert(self@.members =~= base.members.remove_keys(members_listed(guild_id, user_ids@.take(j + 1)))) by {
                assert forall|u: u64| user_ids@.take(j + 1).contains(u) <==> user_ids@.take(j as int).contains(u)
                    || u == user_ids@[j as int] by {
                    assert(user_ids@.take(j + 1).to_set().contains(u) == user_ids@.take(j + 1).contains(u));
                    assert(user_ids@.take(j as int).to_set().contains(u) == user_ids@.take(j as int).contains(u));
                }
            }
            j += 1;
        }
        proof {
            assert(channel_ids@.take(channel_ids.len() as int) == channel_ids@);
            assert(user_ids@.take(user_ids.len() as int) == user_ids@);
            let after = old(self)@.remove_guild(guild_id, unavailable);
            assert(self@.guilds =~= after.guilds);
            assert(self@.channels =~= after.channels);
            assert(self@.members =~= after.members);
            assert(self@.unavailable_guilds =~= after.unavailable_guilds);
        }
    }

    /// Enters `channel_id` in the channel list of the guild, where it is
    /// held.
    pub(crate) fn register_channel(&mut self, guild_id: u64, channel_id: u64)
        requires
            old(self).wf(),
        ensures
            final(self)@ == (CacheView {
                guilds: old(self)@.guilds_with_channel(guild_id, channel_id),
                ..old(self)@
            }),
            final(self).wf(),
    {
        let mut guild = match self.guilds.get(&guild_id) {
            Some(current) => copy_guild(current),
            None => {
                return ;
            },
        };
        guild.channel_ids.insert(channel_id);
        self.put_guild(guild);
    }

    /// Strikes `channel_id` from the channel list of the guild, where it is
    /// held.
    pub(crate) fn unregister_channel(&mut self, guild_id: u64, channel_id: u64)
        requires
            old(self).wf(),
        ensures
            final(self)@ == (CacheView {
                guilds: old(self)@.guilds_without_channel(guild_id, channel_id),
                ..old(self)@
            }),
            final(self).wf(),
    {
        let mut guild = match self.guilds.get(&guild_id) {
            Some(current) => copy_guild(current),
            None => {
                return ;
            },
        };
        guild.channel_ids.remove(&channel_id);
        self.put_guild(guild);
    }

    /// Enters `user_id` in the roster of the guild, where it is held.
    pub(crate) fn register_member(&mut self, guild_id: u64, user_id: u64)
        requires
            old(self).wf(),
        ensures
            final(self)@ == (CacheView {
                guilds: old(self)@.guilds_with_member(guild_id, user_id),
                ..old(self)@
            }),
            final(self).wf(),
    {
        let mut guild = match self.guilds.get(&guild_id) {
            Some(current) => copy_guild(current),
            None => {
                return ;
            },
        };
        guild.member_ids.insert(user_id);
        self.put_guild(guild);
    }

    /// Strikes `user_id` from the roster of the guild, where it is held.
    pub(crate) fn unregister_member(&mut self, guild_id: u64, user_id: u64)
        requires
            old(self).wf(),
        ensures
            final(self)@ == (CacheView {
                guilds: old(self)@.guilds_without_member(guild_id, user_id),
                ..old(self)@
            }),
            final(self).wf(),
    {
        let mut guild = match self.guilds.get(&guild_id) {
            Some(current) => copy_guild(current),
            None => {
                return ;
            },
        };
        guild.member_ids.remove(&user_id);
        self.put_guild(guild);
    }

    /// Applies `update` to the guild, where it is held: each field that it
    /// gives replaces the guild's own. An update for a guild that is not
    /// held is dropped.
    pub fn update_guild(&mut self, guild_id: u64, update: GuildUpdate)
        requires
            old(self).wf(),
            update@.levels matches Some(levels) ==> level_roles_valid(levels),
        ensures
            final(self)@ == old(self)@.update_guild(guild_id, update@),
            final(self).wf(),
    {
        let current = match self.get_guild(guild_id) {
            Some(current) => current,
            None => {
                return ;
            },
        };
        let channel_ids = match update.channel_ids {
            Some(channel_ids) => channel_ids,
            None => copy_ids(&current.channel_ids),
        };
        let levels = match update.levels {
            Some(levels) => levels,
            None => copy_level_roles(&current.levels),
        };
        let member_ids = match update.member_ids {
            Some(member_ids) => member_ids,
            None => copy_ids(&current.member_ids),
        };
        let name = match update.name {
            Some(name) => name,
            None => current.name.clone(),
        };
        let xp_multiplier = match update.xp_multiplier {
            Some(xp_multiplier) => xp_multiplier,
            None => current.xp_multiplier,
        };
        self.put_guild(Guild { channel_ids, guild_id, levels, member_ids, name, xp_multiplier });
    }
}

} // verus!
