//! The mathematical model of the cache and of what each operation does to
//! it.

use crate::types::{
    level_roles_valid, ChannelInfo, ChannelView, GuildUpdateView, GuildView, MemberUpdateView, MemberView,
    RosterMemberView,
};
use vstd::prelude::*;

verus! {

/// The model of the cache: what is held, by identifier.
pub struct CacheView {
    pub channels: Map<u64, ChannelView>,
    pub guilds: Map<u64, GuildView>,
    pub members: Map<(u64, u64), MemberView>,
    pub unavailable_guilds: Set<u64>,
}

/// The members of `guild_id` that `user_ids` lists.
pub open spec fn members_listed(guild_id: u64, user_ids: Seq<u64>) -> Set<(u64, u64)> {
    Set::new(|k: (u64, u64)| k.0 == guild_id && user_ids.contains(k.1))
}

/// The identifiers that `ids` names.
pub open spec fn named_ids(ids: Seq<Option<u64>>) -> Set<u64> {
    Set::new(|id: u64| exists|i: int| 0 <= i < ids.len() && #[trigger] ids[i] == Some(id))
}

/// Each channel of `channels` by its identifier, where it is a voice
/// channel.
pub open spec fn voice_ids_of(channels: Seq<ChannelInfo>) -> Seq<Option<u64>> {
    Seq::new(
        channels.len(),
        |i: int|
            if channels[i].kind.spec_is_voice() {
                Some(channels[i].id)
            } else {
                None
            },
    )
}

/// Each member of `roster` by its identifier.
pub open spec fn user_ids_of(roster: Seq<RosterMemberView>) -> Seq<Option<u64>> {
    Seq::new(roster.len(), |i: int| Some(roster[i].user_id))
}

/// The identifiers of the voice channels among `channels`.
pub open spec fn voice_channel_ids(channels: Seq<ChannelInfo>) -> Set<u64> {
    named_ids(voice_ids_of(channels))
}

/// The identifiers of the members in `roster`.
pub open spec fn roster_user_ids(roster: Seq<RosterMemberView>) -> Set<u64> {
    named_ids(user_ids_of(roster))
}

/// One more entry of a list names one more identifier, where it names one.
pub proof fn lemma_named_ids_step(ids: Seq<Option<u64>>, count: int)
    requires
        0 <= count < ids.len(),
    ensures
        named_ids(ids.take(count + 1)) == (match ids[count] {
            Some(id) => named_ids(ids.take(count)).insert(id),
            None => named_ids(ids.take(count)),
        }),
{
    let shorter = ids.take(count);
    let longer = ids.take(count + 1);
    let expected = match ids[count] {
        Some(id) => named_ids(shorter).insert(id),
        None => named_ids(shorter),
    };
    assert forall|id: u64| named_ids(longer).contains(id) <==> expected.contains(id) by {
        if named_ids(longer).contains(id) {
            let i = choose|i: int| 0 <= i < longer.len() && #[trigger] longer[i] == Some(id);
            if i < count {
                assert(shorter[i] == Some(id));
            }
        }
        if named_ids(shorter).contains(id) {
            let i = choose|i: int| 0 <= i < shorter.len() && #[trigger] shorter[i] == Some(id);
            assert(longer[i] == Some(id));
        }
        assert(longer[count] == ids[count]);
    }
    assert(named_ids(longer) =~= expected);
}

impl CacheView {
    /// The cache that holds nothing.
    pub open spec fn empty() -> CacheView {
        CacheView {
            channels: Map::empty(),
            guilds: Map::empty(),
            members: Map::empty(),
            unavailable_guilds: Set::empty(),
        }
    }

    /// Whether the level-role table of every guild that is held is valid:
    /// it names each level at most once and grants at least one role at
    /// each level that it names.
    pub open spec fn tables_valid(self) -> bool {
        forall|g: u64| #[trigger] self.guilds.contains_key(g) ==> level_roles_valid(self.guilds[g].levels)
    }

    /// Whether every snapshot is held under its own identifiers, every
    /// member has a voice session exactly while it is recorded in a voice
    /// channel, and every guild has a valid level-role table.
    pub open spec fn wf(self) -> bool {
        &&& forall|c: u64| #[trigger] self.channels.contains_key(c) ==> self.channels[c].channel_id == c
        &&& forall|g: u64| #[trigger] self.guilds.contains_key(g) ==> self.guilds[g].guild_id == g
        &&& forall|k: (u64, u64)| #[trigger]
            self.members.contains_key(k) ==> self.members[k].guild_id == k.0 && self.members[k].user_id
                == k.1 && self.members[k].in_voice_consistently()
        &&& self.tables_valid()
    }

    /// Whether nothing that is held refers to the guild: neither the guild
    /// itself, nor a channel, nor a member of it.
    pub open spec fn holds_nothing_of(self, guild_id: u64) -> bool {
        &&& !self.guilds.contains_key(guild_id)
        &&& forall|c: u64| #[trigger] self.channels.contains_key(c) ==> self.channels[c].guild_id != guild_id
        &&& forall|k: (u64, u64)| #[trigger]
            self.members.contains_key(k) ==> self.members[k].guild_id != guild_id && k.0 != guild_id
    }

    /// The guild held under `guild_id`, if any.
    pub open spec fn guild(self, guild_id: u64) -> Option<GuildView> {
        if self.guilds.contains_key(guild_id) {
            Some(self.guilds[guild_id])
        } else {
            None
        }
    }

    /// The channel held under `channel_id`, if any.
    pub open spec fn channel(self, channel_id: u64) -> Option<ChannelView> {
        if self.channels.contains_key(channel_id) {
            Some(self.channels[channel_id])
        } else {
            None
        }
    }

    /// The member held under `guild_id` and `user_id`, if any.
    pub open spec fn member(self, guild_id: u64, user_id: u64) -> Option<MemberView> {
        if self.members.contains_key((guild_id, user_id)) {
            Some(self.members[(guild_id, user_id)])
        } else {
            None
        }
    }

    /// The guilds after `channel_id` has been entered in the channel list of
    /// `guild_id`, where that guild is held.
    pub open spec fn guilds_with_channel(self, guild_id: u64, channel_id: u64) -> Map<u64, GuildView> {
        if self.guilds.contains_key(guild_id) {
            let guild = self.guilds[guild_id];
            self.guilds.insert(
                guild_id,
                GuildView { channel_ids: guild.channel_ids.insert(channel_id), ..guild },
            )
        } else {
            self.guilds
        }
    }

    /// The guilds after `channel_id` has been struck from the channel list
    /// of `guild_id`, where that guild is held.
    pub open spec fn guilds_without_channel(self, guild_id: u64, channel_id: u64) -> Map<u64, GuildView> {
        if self.guilds.contains_key(guild_id) {
            let guild = self.guilds[guild_id];
            self.guilds.insert(
                guild_id,
                GuildView { channel_ids: guild.channel_ids.remove(channel_id), ..guild },
            )
        } else {
            self.guilds
        }
    }

    /// The guilds after `user_id` has been entered in the roster of
    /// `guild_id`, where that guild is held.
    pub open spec fn guilds_with_member(self, guild_id: u64, user_id: u64) -> Map<u64, GuildView> {
        if self.guilds.contains_key(guild_id) {
            let guild = self.guilds[guild_id];
            self.guilds.insert(guild_id, GuildView { member_ids: guild.member_ids.insert(user_id), ..guild })
        } else {
            self.guilds
        }
    }

    /// The guilds after `user_id` has been struck from the roster of
    /// `guild_id`, where that guild is held.
    pub open spec fn guilds_without_member(self, guild_id: u64, user_id: u64) -> Map<u64, GuildView> {
        if self.guilds.contains_key(guild_id) {
            let guild = self.guilds[guild_id];
            self.guilds.insert(guild_id, GuildView { member_ids: guild.member_ids.remove(user_id), ..guild })
        } else {
            self.guilds
        }
    }

    /// The cache after a channel has been announced. Only a voice channel
    /// of a guild is tracked: it is held with no occupants and entered in
    /// its guild's channel list.
    pub open spec fn insert_channel(self, channel: ChannelInfo) -> CacheView {
        if channel.kind.spec_is_voice() && channel.guild_id is Some {
            let guild_id = channel.guild_id->0;
            CacheView {
                channels: self.channels.insert(
                    channel.id,
                    ChannelView { channel_id: channel.id, guild_id, user_ids: Set::empty() },
                ),
                guilds: self.guilds_with_channel(guild_id, channel.id),
                ..self
            }
        } else {
            self
        }
    }

    /// The cache after the channel `channel_id` has gone: it is no longer
    /// held, and its guild no longer lists it.
    pub open spec fn remove_channel(self, channel_id: u64) -> CacheView {
        if self.channels.contains_key(channel_id) {
            CacheView {
                channels: self.channels.remove(channel_id),
                guilds: self.guilds_without_channel(self.channels[channel_id].guild_id, channel_id),
                ..self
            }
        } else {
            self
        }
    }

    /// The cache after the occupants of `channel_id` have been replaced,
    /// where `user_ids` is given and the channel is held.
    pub open spec fn update_channel(self, channel_id: u64, user_ids: Option<Set<u64>>) -> CacheView {
        if self.channels.contains_key(channel_id) {
            CacheView {
                channels: self.channels.insert(channel_id, self.channels[channel_id].updated(user_ids)),
                ..self
            }
        } else {
            self
        }
    }

    /// The cache after `member` has been entered: it is held under its
    /// identifiers, in place of what was held there, and its guild's roster
    /// lists it.
    pub open spec fn insert_member(self, member: MemberView) -> CacheView {
        CacheView {
            members: self.members.insert((member.guild_id, member.user_id), member),
            guilds: self.guilds_with_member(member.guild_id, member.user_id),
            ..self
        }
    }

    /// The cache after the member has left: it is no longer held, and its
    /// guild's roster no longer lists it.
    pub open spec fn remove_member(self, guild_id: u64, user_id: u64) -> CacheView {
        if self.members.contains_key((guild_id, user_id)) {
            CacheView {
                members: self.members.remove((guild_id, user_id)),
                guilds: self.guilds_without_member(self.members[(guild_id, user_id)].guild_id, user_id),
                ..self
            }
        } else {
            self
        }
    }

    /// The cache after `update` has been applied to the member, where it is
    /// held.
    pub open spec fn update_member(self, guild_id: u64, user_id: u64, update: MemberUpdateView) -> CacheView {
        if self.members.contains_key((guild_id, user_id)) {
            CacheView {
                members: self.members.insert(
                    (guild_id, user_id),
                    MemberView { guild_id, user_id, ..self.members[(guild_id, user_id)].updated(update) },
                ),
                ..self
            }
        } else {
            self
        }
    }

    /// The cache after `update` has been applied to the guild, where it is
    /// held.
    pub open spec fn update_guild(self, guild_id: u64, update: GuildUpdateView) -> CacheView {
        if self.guilds.contains_key(guild_id) {
            CacheView {
                guilds: self.guilds.insert(
                    guild_id,
                    GuildView { guild_id, ..self.guilds[guild_id].updated(update) },
                ),
                ..self
            }
        } else {
            self
        }
    }

    /// The cache after each channel of `channels` has been announced as a
    /// channel of `guild_id`, in order.
    pub open spec fn insert_channels(self, guild_id: u64, channels: Seq<ChannelInfo>) -> CacheView
        decreases channels.len(),
    {
        if channels.len() == 0 {
            self
        } else {
            self.insert_channels(guild_id, channels.drop_last()).insert_channel(
                ChannelInfo { guild_id: Some(guild_id), ..channels.last() },
            )
        }
    }

    /// The cache after each entry of `roster` has been entered as a member
    /// of `guild_id`, in order.
    pub open spec fn insert_roster(self, guild_id: u64, roster: Seq<RosterMemberView>, now: i64) -> CacheView
        decreases roster.len(),
    {
        if roster.len() == 0 {
            self
        } else {
            self.insert_roster(guild_id, roster.drop_last(), now).insert_member(
                roster.last().member(guild_id, now),
            )
        }
    }

    /// The cache after a guild has been observed in full at `now`: its
    /// channels are announced as its own and its roster is entered, then
    /// the guild is held with its voice channels in its channel list and
    /// every roster entry in its roster, in place of what was held under
    /// its identifier, and is no longer marked as unavailable.
    pub open spec fn insert_guild(
        self,
        channels: Seq<ChannelInfo>,
        guild_id: u64,
        levels: Seq<(u64, Set<u64>)>,
        roster: Seq<RosterMemberView>,
        name: Seq<char>,
        xp_multiplier: int,
        now: i64,
    ) -> CacheView {
        let filled = self.insert_channels(guild_id, channels).insert_roster(guild_id, roster, now);
        CacheView {
            guilds: filled.guilds.insert(
                guild_id,
                GuildView {
                    channel_ids: voice_channel_ids(channels),
                    guild_id,
                    levels,
                    member_ids: roster_user_ids(roster),
                    name,
                    xp_multiplier,
                },
            ),
            unavailable_guilds: filled.unavailable_guilds.remove(guild_id),
            ..filled
        }
    }

    /// The cache after the guild has gone: the guild, every channel of it
    /// and every member of it are forgotten, and whatever belongs to
    /// another guild is as it was. Where `unavailable` is set the guild is
    /// marked as unavailable.
    pub open spec fn remove_guild(self, guild_id: u64, unavailable: bool) -> CacheView {
        CacheView {
            guilds: self.guilds.remove(guild_id),
            channels: Map::new(
                |c: u64| self.channels.contains_key(c) && self.channels[c].guild_id != guild_id,
                |c: u64| self.channels[c],
            ),
            members: Map::new(
                |k: (u64, u64)| self.members.contains_key(k) && k.0 != guild_id,
                |k: (u64, u64)| self.members[k],
            ),
            unavailable_guilds: if unavailable {
                self.unavailable_guilds.insert(guild_id)
            } else {
                self.unavailable_guilds
            },
        }
    }

    /// The cache after the guild has been marked as unavailable.
    pub open spec fn insert_unavailable_guild(self, guild_id: u64) -> CacheView {
        CacheView { unavailable_guilds: self.unavailable_guilds.insert(guild_id), ..self }
    }

    /// The cache after the guild's mark as unavailable has been taken off.
    pub open spec fn remove_unavailable_guild(self, guild_id: u64) -> CacheView {
        CacheView { unavailable_guilds: self.unavailable_guilds.remove(guild_id), ..self }
    }
}

} // verus!
