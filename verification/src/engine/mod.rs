//! The leveling engine: what an event earns a member, and what that does to
//! the member's level and roles.
//!
//! Each decision is made on the cache as it stands. What a decision owes to
//! the outside (a role replacement, a write to storage) is handed back as a
//! value; the cache takes the new experience only when it is told to apply
//! that value, after the outside work is done.

pub mod membership;
pub mod message;
pub mod voice;

use crate::levels::{level_for, spec_level_for};
use crate::roles::{synced_role_ids, synced_roles};
use crate::types::{Guild, GuildView, Member, MemberView};
use crate::xp::fits_i64;
use std::collections::HashSet;
use vstd::prelude::*;

verus! {

broadcast use vstd::std_specs::hash::group_hash_axioms;

/// What an award comes to for a member: its experience after the award and,
/// where the award changed its level, the full set of roles that it is now
/// owed.
pub struct Settlement {
    pub guild_id: u64,
    pub user_id: u64,
    pub xp: i64,
    pub role_ids: Option<HashSet<u64>>,
}

/// The model of a `Settlement`.
pub struct SettlementView {
    pub guild_id: u64,
    pub user_id: u64,
    pub xp: i64,
    pub role_ids: Option<Set<u64>>,
}

impl View for Settlement {
    type V = SettlementView;

    open spec fn view(&self) -> SettlementView {
        SettlementView {
            guild_id: self.guild_id,
            user_id: self.user_id,
            xp: self.xp,
            role_ids: match self.role_ids {
                Some(ids) => Some(ids@),
                None => None,
            },
        }
    }
}

/// What an award of `award` experience comes to for `member` in `guild`.
/// The roles are given only where the level after the award differs from
/// the level before it: they are the member's own roles and those of every
/// configured level at or below the new level.
pub open spec fn spec_settle(member: MemberView, guild: GuildView, award: int) -> SettlementView {
    let xp = member.xp + award;
    SettlementView {
        guild_id: member.guild_id,
        user_id: member.user_id,
        xp: xp as i64,
        role_ids: if spec_level_for(xp) != spec_level_for(member.xp as int) {
            Some(synced_roles(member.role_ids, guild.levels, spec_level_for(xp)))
        } else {
            None
        },
    }
}

/// A settlement never lowers experience: what it comes to is the member's
/// experience and an award that is never less than nothing.
pub proof fn lemma_settlement_never_lowers(member: MemberView, guild: GuildView, award: int)
    requires
        0 <= award,
        fits_i64(member.xp + award),
    ensures
        spec_settle(member, guild, award).xp >= member.xp,
        spec_settle(member, guild, award).xp == member.xp + award,
{
}

/// What an award of `award` experience, which is never less than nothing,
/// comes to for `member` in `guild`: a settlement never lowers experience.
pub fn settle(member: &Member, guild: &Guild, award: i128) -> (settlement: Settlement)
    requires
        0 <= award,
        fits_i64(member.xp + award),
    ensures
        settlement@ == spec_settle(member@, guild@, award as int),
        settlement.xp >= member.xp,
{
    let xp: i64 = (member.xp as i128 + award) as i64;
    let level_before = level_for(member.xp);
    let level_after = level_for(xp);
    let role_ids = if level_after != level_before {
        Some(synced_role_ids(&member.role_ids, &guild.levels, level_after))
    } else {
        None
    };
    Settlement { guild_id: member.guild_id, user_id: member.user_id, xp, role_ids }
}

/// A settlement never takes a role away, and grants the roles of exactly
/// the configured levels at or below the new level: a role that the member
/// did not hold is in the settled set only where such a level grants it.
pub proof fn lemma_settlement_roles(member: MemberView, guild: GuildView, award: int, role: u64)
    requires
        spec_settle(member, guild, award).role_ids is Some,
    ensures
        member.role_ids.contains(role) ==> spec_settle(member, guild, award).role_ids->0.contains(role),
        spec_settle(member, guild, award).role_ids->0.contains(role) <==> member.role_ids.contains(role) || (
        exists|i: int|
            0 <= i < guild.levels.len() && (#[trigger] guild.levels[i]).0 <= spec_level_for(
                member.xp + award,
            ) && guild.levels[i].1.contains(role)),
{
}

/// What a longer time, or a greater base, is worth is no less.
pub(crate) proof fn lemma_award_grows(low: int, high: int, tenths: int, divisor: int)
    requires
        low <= high,
        tenths >= 0,
        divisor > 0,
    ensures
        low * tenths / divisor <= high * tenths / divisor,
{
    assert(low * tenths <= high * tenths) by (nonlinear_arith)
        requires
            low <= high,
            tenths >= 0,
    ;
    let a = low * tenths;
    let b = high * tenths;
    assert(a / divisor <= b / divisor) by (nonlinear_arith)
        requires
            a <= b,
            divisor > 0,
    ;
}

} // verus!
