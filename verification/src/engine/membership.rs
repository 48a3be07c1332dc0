//! Membership: the roles that a member is owed when it joins, and what
//! becomes of a role that ceases to exist.

use crate::cache::model::CacheView;
use crate::cache::Cache;
use crate::levels::{level_for, spec_level_for};
use crate::roles::{lemma_prune_role, prune_role, spec_prune_role, synced_role_ids, synced_roles};
use crate::sets::{
    copy_ids, gathered, ids_from_vec, ids_to_vec, lemma_gather_step, lemma_gathered_all, lemma_iter_walks,
    walks,
};
use crate::types::{level_roles_valid, Guild, GuildUpdate, GuildUpdateView, MemberUpdate, MemberUpdateView};
use std::collections::HashSet;
use vstd::prelude::*;
use vstd::std_specs::iter::IteratorSpec;

verus! {

broadcast use vstd::std_specs::hash::group_hash_axioms;

/// A member that held a role which has ceased to exist, with the roles
/// that storage still has for it.
pub struct RoleHolder {
    pub user_id: u64,
    pub remaining_role_ids: Vec<u64>,
}

/// The model of a `RoleHolder`.
pub struct RoleHolderView {
    pub user_id: u64,
    pub remaining_role_ids: Seq<u64>,
}

impl View for RoleHolder {
    type V = RoleHolderView;

    open spec fn view(&self) -> RoleHolderView {
        RoleHolderView { user_id: self.user_id, remaining_role_ids: self.remaining_role_ids@ }
    }
}

/// The model of a list of role holders: each by its model.
pub open spec fn role_holders_view(holders: Seq<RoleHolder>) -> Seq<RoleHolderView> {
    Seq::new(holders.len(), |i: int| holders[i]@)
}

impl CacheView {
    /// The roles of a member that joins the guild with the roles
    /// `role_ids` and the experience `xp`: those roles and the roles of
    /// every configured level at or below the member's level. `None` where
    /// the guild is not held.
    pub open spec fn joining_roles(self, guild_id: u64, role_ids: Seq<u64>, xp: i64) -> Option<Set<u64>> {
        if self.guilds.contains_key(guild_id) {
            Some(synced_roles(role_ids.to_set(), self.guilds[guild_id].levels, spec_level_for(xp as int)))
        } else {
            None
        }
    }

    /// The cache after the role `role_id` has been stripped from each of
    /// `holders`, in order: each that is held has the roles that remain for
    /// it, without the role.
    pub open spec fn strip_role(self, guild_id: u64, role_id: u64, holders: Seq<RoleHolderView>) -> CacheView
        decreases holders.len(),
    {
        if holders.len() == 0 {
            self
        } else {
            self.strip_role(guild_id, role_id, holders.drop_last()).update_member(
                guild_id,
                holders.last().user_id,
                MemberUpdateView {
                    role_ids: Some(holders.last().remaining_role_ids.to_set().remove(role_id)),
                    ..MemberUpdateView::keep()
                },
            )
        }
    }

    /// The cache after the role `role_id` of the guild has ceased to exist:
    /// it is stripped from each of `holders`, and the guild's level-role
    /// table, where the guild is held, no longer grants it.
    pub open spec fn role_deleted(self, guild_id: u64, role_id: u64, holders: Seq<RoleHolderView>) -> CacheView {
        let stripped = self.strip_role(guild_id, role_id, holders);
        if stripped.guilds.contains_key(guild_id) {
            stripped.update_guild(
                guild_id,
                GuildUpdateView {
                    levels: Some(spec_prune_role(stripped.guilds[guild_id].levels, role_id)),
                    ..GuildUpdateView::keep()
                },
            )
        } else {
            stripped
        }
    }
}

impl Cache {
    /// The roles of a member that joins the guild with the roles
    /// `role_ids` and the experience `xp`: those roles and the roles of
    /// every configured level at or below the member's level. `None` where
    /// the guild is not held.
    pub fn joining_roles(&self, guild_id: u64, role_ids: &Vec<u64>, xp: i64) -> (owed: Option<HashSet<u64>>)
        ensures
            owed is Some <==> self@.guilds.contains_key(guild_id),
            owed matches Some(ids) ==> Some(ids@) == self@.joining_roles(guild_id, role_ids@, xp),
    {
        let guild = match self.get_guild(guild_id) {
            Some(guild) => guild,
            None => {
                return None;
            },
        };
        let level = level_for(xp);
        let held = ids_from_vec(role_ids);
        Some(synced_role_ids(&held, &guild.levels, level))
    }

    /// Takes note that the role `role_id` of the guild has ceased to exist:
    /// it is stripped from each of `holders`, the members that storage
    /// found to hold it, and the guild's level-role table, where the guild
    /// is held, no longer grants it.
    pub fn role_deleted(&mut self, guild_id: u64, role_id: u64, holders: &Vec<RoleHolder>)
        requires
            old(self).wf(),
        ensures
            final(self)@ == old(self)@.role_deleted(guild_id, role_id, role_holders_view(holders@)),
            final(self).wf(),
    {
        let ghost all = role_holders_view(holders@);
        let mut i: usize = 0;
        while i < holders.len()
            invariant
                i <= holders.len(),
                self.wf(),
                all == role_holders_view(holders@),
                self@ == old(self)@.strip_role(guild_id, role_id, all.take(i as int)),
            decreases holders.len() - i,
        {
            proof {
                assert(all.take(i + 1).drop_last() == all.take(i as int));
                assert(all.take(i + 1).last() == holders@[i as int]@);
            }
            let mut role_ids = ids_from_vec(&holders[i].remaining_role_ids);
            role_ids.remove(&role_id);
            self.update_member(
                guild_id,
                holders[i].user_id,
                MemberUpdate {
                    avatar_url: None,
                    discriminator: None,
                    joined_voice_timestamp: None,
                    last_message_timestamp: None,
                    role_ids: Some(role_ids),
                    username: None,
                    voice_channel_id: None,
                    xp: None,
                },
            );
            i += 1;
        }
        assert(all.take(holders.len() as int) == all);
        let guild = match self.get_guild(guild_id) {
            Some(guild) => guild,
            None => {
                return ;
            },
        };
        let levels = prune_role(&guild.levels, role_id);
        self.update_guild(
            guild_id,
            GuildUpdate { channel_ids: None, levels: Some(levels), member_ids: None, name: None, xp_multiplier: None },
        );
    }
}

impl Cache {
    /// The members on the roster of `guild` that are held and hold the
    /// role `role_id`, each with the roles that remain for it once the role
    /// is gone.
    pub fn role_holders(&self, guild: &Guild, role_id: u64) -> (holders: Vec<RoleHolder>)
        ensures
            forall|i: int|
                0 <= i < holders@.len() ==> {
                    &&& guild@.member_ids.contains((#[trigger] holders@[i]).user_id)
                    &&& self@.members.contains_key((guild.guild_id, holders@[i].user_id))
                    &&& self@.members[(guild.guild_id, holders@[i].user_id)].role_ids.contains(role_id)
                    &&& holders@[i].remaining_role_ids@.to_set() == self@.members[(
                        guild.guild_id,
                        holders@[i].user_id,
                    )].role_ids.remove(role_id)
                },
            forall|u: u64|
                guild@.member_ids.contains(u) && self@.members.contains_key((guild.guild_id, u))
                    && self@.members[(guild.guild_id, u)].role_ids.contains(role_id) ==> exists|i: int|
                    0 <= i < holders@.len() && (#[trigger] holders@[i]).user_id == u,
            forall|i: int, j: int|
                0 <= i < j < holders@.len() ==> (#[trigger] holders@[i]).user_id != (
                #[trigger] holders@[j]).user_id,
    {
        let ghost keys = guild.member_ids.iter().remaining();
        let ghost wanted = |u: u64|
            self@.members.contains_key((guild.guild_id, u)) && self@.members[(
                guild.guild_id,
                u,
            )].role_ids.contains(role_id);
        proof {
            lemma_iter_walks(&guild.member_ids);
        }
        let mut holders: Vec<RoleHolder> = Vec::new();
        for id in it: guild.member_ids.iter()
            invariant
                it.seq() == keys,
                walks(keys, guild.member_ids@),
                wanted == |u: u64|
                    self@.members.contains_key((guild.guild_id, u)) && self@.members[(
                        guild.guild_id,
                        u,
                    )].role_ids.contains(role_id),
                gathered(keys, it.index(), holder_user_ids(holders@), wanted),
                forall|i: int|
                    0 <= i < holders@.len() ==> (#[trigger] holders@[i]).remaining_role_ids@.to_set()
                        == self@.members[(guild.guild_id, holders@[i].user_id)].role_ids.remove(role_id),
        {
            let ghost before = holder_user_ids(holders@);
            match self.get_member(guild.guild_id, *id) {
                Some(member) => {
                    if member.role_ids.contains(&role_id) {
                        let mut remaining = copy_ids(&member.role_ids);
                        remaining.remove(&role_id);
                        holders.push(RoleHolder { user_id: *id, remaining_role_ids: ids_to_vec(&remaining) });
                    }
                },
                None => {},
            }
            proof {
                assert(holder_user_ids(holders@) =~= (if wanted(*id) {
                    before.push(*id)
                } else {
                    before
                }));
                lemma_gather_step(keys, guild.member_ids@, it.index(), before, holder_user_ids(holders@), wanted);
            }
        }
        proof {
            lemma_gathered_all(keys, guild.member_ids@, holder_user_ids(holders@), wanted);
            assert forall|i: int| 0 <= i < holders@.len() implies {
                &&& guild@.member_ids.contains((#[trigger] holders@[i]).user_id)
                &&& self@.members.contains_key((guild.guild_id, holders@[i].user_id))
                &&& self@.members[(guild.guild_id, holders@[i].user_id)].role_ids.contains(role_id)
            } by {
                assert(holder_user_ids(holders@)[i] == holders@[i].user_id);
                assert(holder_user_ids(holders@).contains(holders@[i].user_id));
            }
            assert forall|u: u64|
                guild@.member_ids.contains(u) && self@.members.contains_key((guild.guild_id, u))
                    && self@.members[(guild.guild_id, u)].role_ids.contains(role_id) implies exists|i: int|
                0 <= i < holders@.len() && (#[trigger] holders@[i]).user_id == u by {
                assert(holder_user_ids(holders@).contains(u));
                let i = choose|i: int| 0 <= i < holders@.len() && holder_user_ids(holders@)[i] == u;
                assert(holders@[i].user_id == u);
            }
            assert forall|i: int, j: int| 0 <= i < j < holders@.len() implies (#[trigger] holders@[i]).user_id != (
            #[trigger] holders@[j]).user_id by {
                assert(holder_user_ids(holders@)[i] != holder_user_ids(holders@)[j]);
            }
        }
        holders
    }
}

/// The holders on `holders`, each by its identifier.
pub open spec fn holder_user_ids(holders: Seq<RoleHolder>) -> Seq<u64> {
    Seq::new(holders.len(), |i: int| holders[i].user_id)
}

/// Stripping a role from a list of holders leaves the same members held,
/// takes the role from every holder on the list, and leaves every other
/// member as it was.
pub proof fn lemma_strip_role(
    cache: CacheView,
    guild_id: u64,
    role_id: u64,
    holders: Seq<RoleHolderView>,
    user_id: u64,
)
    requires
        cache.wf(),
    ensures
        cache.strip_role(guild_id, role_id, holders).wf(),
        cache.strip_role(guild_id, role_id, holders).guilds == cache.guilds,
        cache.strip_role(guild_id, role_id, holders).channels == cache.channels,
        cache.strip_role(guild_id, role_id, holders).members.contains_key((guild_id, user_id))
            == cache.members.contains_key((guild_id, user_id)),
        cache.members.contains_key((guild_id, user_id)) ==> {
            if exists|i: int| 0 <= i < holders.len() && (#[trigger] holders[i]).user_id == user_id {
                !cache.strip_role(guild_id, role_id, holders).members[(guild_id, user_id)].role_ids.contains(
                    role_id,
                )
            } else {
                cache.strip_role(guild_id, role_id, holders).members[(guild_id, user_id)]
                    == cache.members[(guild_id, user_id)]
            }
        },
    decreases holders.len(),
{
    if holders.len() > 0 {
        let shorter = holders.drop_last();
        lemma_strip_role(cache, guild_id, role_id, shorter, user_id);
        lemma_strip_role(cache, guild_id, role_id, shorter, holders.last().user_id);
        let before = cache.strip_role(guild_id, role_id, shorter);
        let after = cache.strip_role(guild_id, role_id, holders);
        if cache.members.contains_key((guild_id, user_id)) {
            if holders.last().user_id == user_id {
                assert(holders[holders.len() - 1].user_id == user_id);
            } else if exists|i: int| 0 <= i < holders.len() && (#[trigger] holders[i]).user_id == user_id {
                let i = choose|i: int| 0 <= i < holders.len() && (#[trigger] holders[i]).user_id == user_id;
                assert(shorter[i].user_id == user_id);
            } else {
                assert forall|i: int| 0 <= i < shorter.len() implies (#[trigger] shorter[i]).user_id
                    != user_id by {
                    assert(holders[i].user_id != user_id);
                }
            }
        }
    }
}

/// Once a role has ceased to exist and has been stripped from the members
/// that `role_holders` found, no member on the guild's roster holds it,
/// and the guild's level-role table does not grant it.
pub proof fn lemma_role_deleted(
    cache: CacheView,
    guild_id: u64,
    role_id: u64,
    holders: Seq<RoleHolderView>,
    user_id: u64,
)
    requires
        cache.wf(),
        cache.guilds.contains_key(guild_id),
        forall|u: u64|
            cache.guilds[guild_id].member_ids.contains(u) && cache.members.contains_key((guild_id, u))
                && cache.members[(guild_id, u)].role_ids.contains(role_id) ==> exists|i: int|
                0 <= i < holders.len() && (#[trigger] holders[i]).user_id == u,
        cache.guilds[guild_id].member_ids.contains(user_id),
        cache.members.contains_key((guild_id, user_id)),
    ensures
        ({
            let after = cache.role_deleted(guild_id, role_id, holders);
            &&& after.members.contains_key((guild_id, user_id))
            &&& !after.members[(guild_id, user_id)].role_ids.contains(role_id)
            &&& after.guilds.contains_key(guild_id)
            &&& forall|i: int|
                0 <= i < after.guilds[guild_id].levels.len() ==> !(
                #[trigger] after.guilds[guild_id].levels[i]).1.contains(role_id)
        }),
{
    lemma_strip_role(cache, guild_id, role_id, holders, user_id);
    lemma_prune_role(cache.guilds[guild_id].levels, role_id);
}

/// Taking note that a role has ceased to exist leaves every level-role
/// table valid.
pub proof fn lemma_role_deleted_keeps_tables_valid(
    cache: CacheView,
    guild_id: u64,
    role_id: u64,
    holders: Seq<RoleHolderView>,
)
    requires
        cache.wf(),
        cache.tables_valid(),
    ensures
        cache.role_deleted(guild_id, role_id, holders).tables_valid(),
{
    lemma_strip_role(cache, guild_id, role_id, holders, 0);
    let after = cache.role_deleted(guild_id, role_id, holders);
    if cache.guilds.contains_key(guild_id) {
        lemma_prune_role(cache.guilds[guild_id].levels, role_id);
    }
    assert forall|g: u64| #[trigger] after.guilds.contains_key(g) implies level_roles_valid(
        after.guilds[g].levels,
    ) by {
        assert(cache.guilds.contains_key(g));
    }
}

} // verus!
