//! What holds of the cache's operations taken together.

use crate::cache::model::{roster_user_ids, user_ids_of, voice_channel_ids, voice_ids_of, CacheView};
use crate::types::{
    level_roles_valid, ChannelInfo, ChannelView, GuildView, MemberUpdateView, MemberView, RosterMemberView,
};
use vstd::prelude::*;

verus! {

impl CacheView {
    /// Whether two caches hold the same leveling configuration for the
    /// guild: both hold it, with the same level-role table, multiplier and
    /// name, or neither holds it.
    pub open spec fn same_configuration(self, other: CacheView, guild_id: u64) -> bool {
        &&& self.guilds.contains_key(guild_id) == other.guilds.contains_key(guild_id)
        &&& self.guilds.contains_key(guild_id) ==> {
            &&& self.guilds[guild_id].levels == other.guilds[guild_id].levels
            &&& self.guilds[guild_id].xp_multiplier == other.guilds[guild_id].xp_multiplier
            &&& self.guilds[guild_id].name == other.guilds[guild_id].name
        }
    }
}

/// Removing a guild leaves nothing in the cache that refers to it: neither
/// the guild, nor a channel of it, nor a member of it can be retrieved,
/// whether the guild listed them or not. What belongs to another guild is
/// as it was.
pub proof fn lemma_remove_guild_cascades(cache: CacheView, guild_id: u64, unavailable: bool)
    requires
        cache.wf(),
    ensures
        cache.remove_guild(guild_id, unavailable).holds_nothing_of(guild_id),
        cache.remove_guild(guild_id, unavailable).wf(),
        forall|g: u64|
            g != guild_id && #[trigger] cache.guilds.contains_key(g) ==> cache.remove_guild(
                guild_id,
                unavailable,
            ).guild(g) == cache.guild(g),
        forall|c: u64|
            #[trigger] cache.channels.contains_key(c) && cache.channels[c].guild_id != guild_id
                ==> cache.remove_guild(guild_id, unavailable).channel(c) == cache.channel(c),
        forall|k: (u64, u64)|
            k.0 != guild_id && #[trigger] cache.members.contains_key(k) ==> cache.remove_guild(
                guild_id,
                unavailable,
            ).member(k.0, k.1) == cache.member(k.0, k.1),
{
    let after = cache.remove_guild(guild_id, unavailable);
    assert forall|g: u64| #[trigger] after.guilds.contains_key(g) implies level_roles_valid(
        after.guilds[g].levels,
    ) by {
        assert(cache.guilds.contains_key(g));
    }
}

/// Entering a member that is already held, again, changes nothing, and
/// entering any member leaves every guild's leveling configuration, every
/// channel and every other member as they were.
pub proof fn lemma_insert_member_idempotent(cache: CacheView, member: MemberView)
    ensures
        cache.insert_member(member).insert_member(member) == cache.insert_member(member),
        cache.insert_member(member).channels == cache.channels,
        cache.insert_member(member).unavailable_guilds == cache.unavailable_guilds,
        forall|g: u64| cache.insert_member(member).same_configuration(cache, g),
        forall|k: (u64, u64)|
            k != (member.guild_id, member.user_id) && #[trigger] cache.members.contains_key(k) ==> {
                &&& cache.insert_member(member).members.contains_key(k)
                &&& cache.insert_member(member).members[k] == cache.members[k]
            },
{
    let once = cache.insert_member(member);
    let twice = once.insert_member(member);
    assert(twice.members =~= once.members);
    if cache.guilds.contains_key(member.guild_id) {
        assert(twice.guilds[member.guild_id].member_ids =~= once.guilds[member.guild_id].member_ids);
    }
    assert(twice.guilds =~~= once.guilds);
}

/// The channel held under `channel_id` after `channels` have been
/// announced as channels of `guild_id`, where `before` was held there:
/// what the last announcement of that channel as a voice channel made of
/// it.
pub open spec fn channel_after(
    channels: Seq<ChannelInfo>,
    guild_id: u64,
    channel_id: u64,
    before: Option<ChannelView>,
) -> Option<ChannelView>
    decreases channels.len(),
{
    if channels.len() == 0 {
        before
    } else if channels.last().kind.spec_is_voice() && channels.last().id == channel_id {
        Some(ChannelView { channel_id, guild_id, user_ids: Set::empty() })
    } else {
        channel_after(channels.drop_last(), guild_id, channel_id, before)
    }
}

/// The member held under `user_id` in `guild_id` after `roster` has been
/// entered, where `before` was held there: what the last entry of that
/// member made of it.
pub open spec fn member_after(
    roster: Seq<RosterMemberView>,
    guild_id: u64,
    now: i64,
    user_id: u64,
    before: Option<MemberView>,
) -> Option<MemberView>
    decreases roster.len(),
{
    if roster.len() == 0 {
        before
    } else if roster.last().user_id == user_id {
        Some(roster.last().member(guild_id, now))
    } else {
        member_after(roster.drop_last(), guild_id, now, user_id, before)
    }
}

/// What announcing `channels` as channels of `guild_id` does to the cache:
/// members, marks and every other guild stay; each channel is what its
/// last announcement as a voice channel made of it.
pub proof fn lemma_insert_channels_effect(cache: CacheView, guild_id: u64, channels: Seq<ChannelInfo>)
    ensures
        cache.insert_channels(guild_id, channels).members == cache.members,
        cache.insert_channels(guild_id, channels).unavailable_guilds == cache.unavailable_guilds,
        cache.insert_channels(guild_id, channels).guilds.dom() == cache.guilds.dom(),
        forall|h: u64|
            h != guild_id && #[trigger] cache.guilds.contains_key(h) ==> cache.insert_channels(
                guild_id,
                channels,
            ).guilds[h] == cache.guilds[h],
        forall|h: u64| cache.insert_channels(guild_id, channels).same_configuration(cache, h),
        forall|c: u64| #[trigger]
            cache.insert_channels(guild_id, channels).channel(c) == channel_after(
                channels,
                guild_id,
                c,
                cache.channel(c),
            ),
    decreases channels.len(),
{
    let after = cache.insert_channels(guild_id, channels);
    if channels.len() > 0 {
        let shorter = channels.drop_last();
        let before = cache.insert_channels(guild_id, shorter);
        lemma_insert_channels_effect(cache, guild_id, shorter);
        assert(after.guilds.dom() =~= cache.guilds.dom());
        assert forall|h: u64| after.same_configuration(cache, h) by {
            assert(before.same_configuration(cache, h));
        }
        assert forall|c: u64| #[trigger] after.channel(c) == channel_after(
            channels,
            guild_id,
            c,
            cache.channel(c),
        ) by {
            assert(before.channel(c) == channel_after(shorter, guild_id, c, cache.channel(c)));
        }
    }
}

/// What entering `roster` as members of `guild_id` does to the cache:
/// channels, marks and every other guild stay; each member is what its
/// last entry made of it.
pub proof fn lemma_insert_roster_effect(cache: CacheView, guild_id: u64, roster: Seq<RosterMemberView>, now: i64)
    ensures
        cache.insert_roster(guild_id, roster, now).channels == cache.channels,
        cache.insert_roster(guild_id, roster, now).unavailable_guilds == cache.unavailable_guilds,
        cache.insert_roster(guild_id, roster, now).guilds.dom() == cache.guilds.dom(),
        forall|h: u64|
            h != guild_id && #[trigger] cache.guilds.contains_key(h) ==> cache.insert_roster(
                guild_id,
                roster,
                now,
            ).guilds[h] == cache.guilds[h],
        forall|h: u64| cache.insert_roster(guild_id, roster, now).same_configuration(cache, h),
        forall|u: u64| #[trigger]
            cache.insert_roster(guild_id, roster, now).member(guild_id, u) == member_after(
                roster,
                guild_id,
                now,
                u,
                cache.member(guild_id, u),
            ),
        forall|k: (u64, u64)|
            k.0 != guild_id ==> #[trigger] cache.insert_roster(guild_id, roster, now).member(k.0, k.1)
                == cache.member(k.0, k.1),
    decreases roster.len(),
{
    let after = cache.insert_roster(guild_id, roster, now);
    if roster.len() > 0 {
        let shorter = roster.drop_last();
        let before = cache.insert_roster(guild_id, shorter, now);
        lemma_insert_roster_effect(cache, guild_id, shorter, now);
        assert(after.guilds.dom() =~= cache.guilds.dom());
        assert forall|h: u64| after.same_configuration(cache, h) by {
            assert(before.same_configuration(cache, h));
        }
        assert forall|u: u64| #[trigger] after.member(guild_id, u) == member_after(
            roster,
            guild_id,
            now,
            u,
            cache.member(guild_id, u),
        ) by {
            assert(before.member(guild_id, u) == member_after(shorter, guild_id, now, u, cache.member(guild_id, u)));
        }
        assert forall|k: (u64, u64)| k.0 != guild_id implies #[trigger] after.member(k.0, k.1) == cache.member(
            k.0,
            k.1,
        ) by {
            assert(before.member(k.0, k.1) == cache.member(k.0, k.1));
        }
    }
}

proof fn lemma_channel_after_twice(
    channels: Seq<ChannelInfo>,
    guild_id: u64,
    channel_id: u64,
    before: Option<ChannelView>,
)
    ensures
        channel_after(channels, guild_id, channel_id, channel_after(channels, guild_id, channel_id, before))
            == channel_after(channels, guild_id, channel_id, before),
    decreases channels.len(),
{
    if channels.len() > 0 && !(channels.last().kind.spec_is_voice() && channels.last().id == channel_id) {
        lemma_channel_after_twice(channels.drop_last(), guild_id, channel_id, before);
    }
}

proof fn lemma_member_after_twice(
    roster: Seq<RosterMemberView>,
    guild_id: u64,
    now: i64,
    user_id: u64,
    before: Option<MemberView>,
)
    ensures
        member_after(roster, guild_id, now, user_id, member_after(roster, guild_id, now, user_id, before))
            == member_after(roster, guild_id, now, user_id, before),
    decreases roster.len(),
{
    if roster.len() > 0 && roster.last().user_id != user_id {
        lemma_member_after_twice(roster.drop_last(), guild_id, now, user_id, before);
    }
}

proof fn lemma_channel_after_announced(
    channels: Seq<ChannelInfo>,
    guild_id: u64,
    channel_id: u64,
    before: Option<ChannelView>,
)
    requires
        voice_channel_ids(channels).contains(channel_id),
    ensures
        channel_after(channels, guild_id, channel_id, before) == Some(
            ChannelView { channel_id, guild_id, user_ids: Set::empty() },
        ),
    decreases channels.len(),
{
    let i = choose|i: int|
        0 <= i < voice_ids_of(channels).len() && #[trigger] voice_ids_of(channels)[i] == Some(channel_id);
    if !(channels.last().kind.spec_is_voice() && channels.last().id == channel_id) {
        let shorter = channels.drop_last();
        assert(i < shorter.len());
        assert(voice_ids_of(shorter)[i] == Some(channel_id));
        lemma_channel_after_announced(shorter, guild_id, channel_id, before);
    }
}

proof fn lemma_member_after_entered(
    roster: Seq<RosterMemberView>,
    guild_id: u64,
    now: i64,
    user_id: u64,
    before: Option<MemberView>,
)
    requires
        roster_user_ids(roster).contains(user_id),
    ensures
        member_after(roster, guild_id, now, user_id, before) is Some,
        member_after(roster, guild_id, now, user_id, before)->0.guild_id == guild_id,
        member_after(roster, guild_id, now, user_id, before)->0.user_id == user_id,
    decreases roster.len(),
{
    let i = choose|i: int|
        0 <= i < user_ids_of(roster).len() && #[trigger] user_ids_of(roster)[i] == Some(user_id);
    if roster.last().user_id != user_id {
        let shorter = roster.drop_last();
        assert(i < shorter.len());
        assert(user_ids_of(shorter)[i] == Some(user_id));
        lemma_member_after_entered(shorter, guild_id, now, user_id, before);
    }
}

/// Observing a guild in full materializes it: the guild is held with the
/// table, the name and the multiplier that came with the observation, its
/// channel list is the voice channels that were announced, each of which is
/// held as a channel of the guild, with no occupants, and its roster is the
/// members that were announced, each of which is held as a member of the
/// guild.
pub proof fn lemma_insert_guild_materializes(
    cache: CacheView,
    channels: Seq<ChannelInfo>,
    guild_id: u64,
    levels: Seq<(u64, Set<u64>)>,
    roster: Seq<RosterMemberView>,
    name: Seq<char>,
    xp_multiplier: int,
    now: i64,
)
    ensures
        ({
            let after = cache.insert_guild(channels, guild_id, levels, roster, name, xp_multiplier, now);
            &&& after.guild(guild_id) == Some(
                GuildView {
                    channel_ids: voice_channel_ids(channels),
                    guild_id,
                    levels,
                    member_ids: roster_user_ids(roster),
                    name,
                    xp_multiplier,
                },
            )
            &&& !after.unavailable_guilds.contains(guild_id)
            &&& forall|c: u64| #[trigger]
                voice_channel_ids(channels).contains(c) ==> after.channel(c) == Some(
                    ChannelView { channel_id: c, guild_id, user_ids: Set::empty() },
                )
            &&& forall|u: u64| #[trigger]
                roster_user_ids(roster).contains(u) ==> after.members.contains_key((guild_id, u))
                    && after.members[(guild_id, u)].guild_id == guild_id && after.members[(
                    guild_id,
                    u,
                )].user_id == u
        }),
{
    let announced = cache.insert_channels(guild_id, channels);
    let filled = announced.insert_roster(guild_id, roster, now);
    let after = cache.insert_guild(channels, guild_id, levels, roster, name, xp_multiplier, now);
    lemma_insert_channels_effect(cache, guild_id, channels);
    lemma_insert_roster_effect(announced, guild_id, roster, now);
    assert forall|c: u64| #[trigger] voice_channel_ids(channels).contains(c) implies after.channel(c) == Some(
        ChannelView { channel_id: c, guild_id, user_ids: Set::empty() },
    ) by {
        lemma_channel_after_announced(channels, guild_id, c, cache.channel(c));
        assert(announced.channel(c) == channel_after(channels, guild_id, c, cache.channel(c)));
        assert(after.channel(c) == announced.channel(c));
    }
    assert forall|u: u64| #[trigger] roster_user_ids(roster).contains(u) implies after.members.contains_key(
        (guild_id, u),
    ) && after.members[(guild_id, u)].guild_id == guild_id && after.members[(guild_id, u)].user_id == u by {
        lemma_member_after_entered(roster, guild_id, now, u, announced.member(guild_id, u));
        assert(filled.member(guild_id, u) == member_after(
            roster,
            guild_id,
            now,
            u,
            announced.member(guild_id, u),
        ));
        assert(after.member(guild_id, u) == filled.member(guild_id, u));
    }
}

/// Observing a guild in full leaves the leveling configuration of every
/// other guild as it was, and gives the observed guild exactly the
/// configuration that came with the observation.
pub proof fn lemma_insert_guild_keeps_other_configuration(
    cache: CacheView,
    channels: Seq<ChannelInfo>,
    guild_id: u64,
    levels: Seq<(u64, Set<u64>)>,
    roster: Seq<RosterMemberView>,
    name: Seq<char>,
    xp_multiplier: int,
    now: i64,
    other_guild_id: u64,
)
    requires
        other_guild_id != guild_id,
    ensures
        cache.insert_guild(channels, guild_id, levels, roster, name, xp_multiplier, now).guild(other_guild_id)
            == cache.guild(other_guild_id),
        cache.insert_guild(channels, guild_id, levels, roster, name, xp_multiplier, now).guilds.contains_key(
            guild_id,
        ),
        cache.insert_guild(channels, guild_id, levels, roster, name, xp_multiplier, now).guilds[guild_id].levels
            == levels,
        cache.insert_guild(
            channels,
            guild_id,
            levels,
            roster,
            name,
            xp_multiplier,
            now,
        ).guilds[guild_id].xp_multiplier == xp_multiplier,
{
    lemma_insert_channels_effect(cache, guild_id, channels);
    lemma_insert_roster_effect(cache.insert_channels(guild_id, channels), guild_id, roster, now);
    if cache.guilds.contains_key(other_guild_id) {
        assert(cache.insert_channels(guild_id, channels).guilds.contains_key(other_guild_id));
    }
}

/// Observing a guild in full a second time, with what the first
/// observation came with, changes nothing.
pub proof fn lemma_insert_guild_idempotent(
    cache: CacheView,
    channels: Seq<ChannelInfo>,
    guild_id: u64,
    levels: Seq<(u64, Set<u64>)>,
    roster: Seq<RosterMemberView>,
    name: Seq<char>,
    xp_multiplier: int,
    now: i64,
)
    ensures
        cache.insert_guild(channels, guild_id, levels, roster, name, xp_multiplier, now).insert_guild(
            channels,
            guild_id,
            levels,
            roster,
            name,
            xp_multiplier,
            now,
        ) == cache.insert_guild(channels, guild_id, levels, roster, name, xp_multiplier, now),
{
    let announced = cache.insert_channels(guild_id, channels);
    let filled = announced.insert_roster(guild_id, roster, now);
    let once = cache.insert_guild(channels, guild_id, levels, roster, name, xp_multiplier, now);
    let announced_again = once.insert_channels(guild_id, channels);
    let filled_again = announced_again.insert_roster(guild_id, roster, now);
    let twice = once.insert_guild(channels, guild_id, levels, roster, name, xp_multiplier, now);
    lemma_insert_channels_effect(cache, guild_id, channels);
    lemma_insert_roster_effect(announced, guild_id, roster, now);
    lemma_insert_channels_effect(once, guild_id, channels);
    lemma_insert_roster_effect(announced_again, guild_id, roster, now);
    assert(twice.unavailable_guilds =~= once.unavailable_guilds);
    assert(twice.channels =~= once.channels) by {
        assert forall|c: u64| twice.channel(c) == once.channel(c) by {
            lemma_channel_after_twice(channels, guild_id, c, cache.channel(c));
            assert(announced.channel(c) == channel_after(channels, guild_id, c, cache.channel(c)));
            assert(once.channel(c) == announced.channel(c));
            assert(announced_again.channel(c) == channel_after(channels, guild_id, c, once.channel(c)));
            assert(twice.channel(c) == announced_again.channel(c));
        }
        assert forall|c: u64| twice.channels.contains_key(c) == once.channels.contains_key(c) by {
            assert(twice.channel(c) == once.channel(c));
        }
        assert forall|c: u64| twice.channels.contains_key(c) implies twice.channels[c] == once.channels[c] by {
            assert(twice.channel(c) == once.channel(c));
        }
    }
    assert(twice.members =~= once.members) by {
        assert forall|k: (u64, u64)| twice.member(k.0, k.1) == once.member(k.0, k.1) by {
            if k.0 == guild_id {
                lemma_member_after_twice(roster, guild_id, now, k.1, cache.member(guild_id, k.1));
                assert(announced.member(guild_id, k.1) == cache.member(guild_id, k.1));
                assert(filled.member(guild_id, k.1) == member_after(
                    roster,
                    guild_id,
                    now,
                    k.1,
                    announced.member(guild_id, k.1),
                ));
                assert(once.member(guild_id, k.1) == filled.member(guild_id, k.1));
                assert(announced_again.member(guild_id, k.1) == once.member(guild_id, k.1));
                assert(filled_again.member(guild_id, k.1) == member_after(
                    roster,
                    guild_id,
                    now,
                    k.1,
                    announced_again.member(guild_id, k.1),
                ));
            } else {
                assert(filled.member(k.0, k.1) == announced.member(k.0, k.1));
                assert(filled_again.member(k.0, k.1) == announced_again.member(k.0, k.1));
            }
        }
        assert forall|k: (u64, u64)| twice.members.contains_key(k) == once.members.contains_key(k) by {
            assert(twice.member(k.0, k.1) == once.member(k.0, k.1));
        }
        assert forall|k: (u64, u64)| twice.members.contains_key(k) implies twice.members[k]
            == once.members[k] by {
            assert(twice.member(k.0, k.1) == once.member(k.0, k.1));
        }
    }
    assert(twice.guilds =~~= once.guilds) by {
        assert(twice.guilds.dom() =~= once.guilds.dom());
        assert forall|h: u64| once.guilds.contains_key(h) implies twice.guilds[h] == once.guilds[h] by {
            if h != guild_id {
                assert(filled.guilds.contains_key(h));
                assert(announced.guilds.contains_key(h));
                assert(cache.guilds.contains_key(h));
                assert(announced_again.guilds.contains_key(h));
            }
        }
    }
}

/// An update of a member builds a new snapshot from the one that is held
/// and leaves everything else as it was: the snapshot that was held before
/// is the value that it was.
pub proof fn lemma_update_member_replaces_snapshot(
    cache: CacheView,
    guild_id: u64,
    user_id: u64,
    update: MemberUpdateView,
)
    requires
        cache.wf(),
        cache.members.contains_key((guild_id, user_id)),
    ensures
        cache.update_member(guild_id, user_id, update).members[(guild_id, user_id)] == cache.members[(
            guild_id,
            user_id,
        )].updated(update),
        cache.update_member(guild_id, user_id, update).members.dom() == cache.members.dom(),
        forall|k: (u64, u64)|
            k != (guild_id, user_id) && #[trigger] cache.members.contains_key(k) ==> cache.update_member(
                guild_id,
                user_id,
                update,
            ).members[k] == cache.members[k],
        cache.update_member(guild_id, user_id, update).guilds == cache.guilds,
        cache.update_member(guild_id, user_id, update).channels == cache.channels,
{
    let after = cache.update_member(guild_id, user_id, update);
    assert(after.members.dom() =~= cache.members.dom());
}

} // verus!
