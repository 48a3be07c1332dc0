//! What the bot's commands compute before they answer.

use crate::cache::Cache;
use crate::leaderboard::ranked;
use crate::pages::{page, spec_page, Page, LEADERBOARD_PAGE, LEVEL_ROLES_PAGE};
use crate::roles::{level_sorted, sorted_level_roles};
use crate::types::{level_roles_view, Guild, LevelRoles, Member};
use crate::xp::spec_message_timestamp;
use std::sync::Arc;
use vstd::prelude::*;

verus! {

/// The command that tells how long the platform takes to answer.
pub struct LatencyCommand {}

impl LatencyCommand {
    /// The milliseconds between the writing of the interaction and the
    /// writing of the response to it, each told by its identifier.
    pub fn round_trip_millis(response_id: u64, interaction_id: u64) -> (millis: u64)
        requires
            spec_message_timestamp(response_id) >= spec_message_timestamp(interaction_id),
        ensures
            millis == spec_message_timestamp(response_id) - spec_message_timestamp(interaction_id),
    {
        let response: u64 = response_id >> 22;
        let interaction: u64 = interaction_id >> 22;
        assert(response <= 0x3ff_ffff_ffff) by (bit_vector)
            requires
                response == response_id >> 22,
        ;
        assert(interaction <= 0x3ff_ffff_ffff) by (bit_vector)
            requires
                interaction == interaction_id >> 22,
        ;
        (response + crate::xp::ID_EPOCH_MILLIS) - (interaction + crate::xp::ID_EPOCH_MILLIS)
    }
}

/// The first page of a leaderboard, with the board that it is a page of.
pub struct LeaderboardFirstPage {
    /// The members of the guild in the order of the leaderboard.
    pub board: Vec<Arc<Member>>,
    /// The first page of the board.
    pub page: Page,
    /// Whether the board takes more than one page, so that the answer
    /// carries a footer and the buttons that turn the page.
    pub paged: bool,
}

/// The command that shows a guild's leaderboard.
pub struct LeaderboardCommand {}

impl LeaderboardCommand {
    /// The leaderboard of `guild` and its first page: every member that
    /// the roster lists and the cache holds, in the order of the
    /// leaderboard.
    pub fn first_page(cache: &Cache, guild: &Guild) -> (first: LeaderboardFirstPage)
        requires
            cache.wf(),
        ensures
            ranked(first.board@),
            forall|i: int|
                0 <= i < first.board@.len() ==> {
                    &&& cache@.on_leaderboard(guild@, false, (#[trigger] first.board@[i]).user_id)
                    &&& first.board@[i]@ == cache@.members[(guild.guild_id, first.board@[i].user_id)]
                },
            forall|u: u64|
                cache@.on_leaderboard(guild@, false, u) ==> exists|i: int|
                    0 <= i < first.board@.len() && (#[trigger] first.board@[i]).user_id == u,
            forall|i: int, j: int|
                0 <= i < j < first.board@.len() ==> (#[trigger] first.board@[i]).user_id != (
                #[trigger] first.board@[j]).user_id,
            first.page == spec_page(0, first.board@.len() as int, LEADERBOARD_PAGE as int),
            first.paged == (first.board@.len() > LEADERBOARD_PAGE),
    {
        let board = cache.leaderboard(guild, false);
        let first = page(0, board.len(), LEADERBOARD_PAGE);
        let paged = board.len() > LEADERBOARD_PAGE;
        LeaderboardFirstPage { board, page: first, paged }
    }
}

/// The first page of a guild's level roles, with the table that it is a
/// page of.
pub struct LevelRolesFirstPage {
    /// The level-role table in the order of its levels.
    pub levels: LevelRoles,
    /// The first page of the table.
    pub page: Page,
    /// Whether the table takes more than one page, so that the answer
    /// carries a footer and the buttons that turn the page.
    pub paged: bool,
}

/// The command that shows a guild's level roles.
pub struct ConfigViewLevelRolesCommand {}

impl ConfigViewLevelRolesCommand {
    /// The level-role table of `guild` in the order of its levels, and its
    /// first page.
    pub fn first_page(guild: &Guild) -> (first: LevelRolesFirstPage)
        ensures
            level_sorted(level_roles_view(first.levels@)),
            level_roles_view(first.levels@).to_multiset() == level_roles_view(guild.levels@).to_multiset(),
            first.page == spec_page(0, guild.levels@.len() as int, LEVEL_ROLES_PAGE as int),
            first.paged == (guild.levels@.len() > LEVEL_ROLES_PAGE),
    {
        let levels = sorted_level_roles(&guild.levels);
        proof {
            level_roles_view(levels@).to_multiset_ensures();
            level_roles_view(guild.levels@).to_multiset_ensures();
        }
        let first = page(0, levels.len(), LEVEL_ROLES_PAGE);
        let paged = levels.len() > LEVEL_ROLES_PAGE;
        LevelRolesFirstPage { levels, page: first, paged }
    }
}

} // verus!
