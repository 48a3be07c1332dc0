//! What the buttons under a paged answer compute when they are pressed.

use crate::cache::Cache;
use crate::leaderboard::ranked;
use crate::pages::{
    spec_turn_back, spec_turn_page, turn_back, turn_page, Page, TurnError, LEADERBOARD_PAGE,
    LEVEL_ROLES_PAGE,
};
use crate::roles::{level_sorted, sorted_level_roles};
use crate::types::{level_roles_view, Guild, LevelRoles, Member};
use std::sync::Arc;
use vstd::prelude::*;

verus! {

/// A leaderboard and the page of it that a press of a button leads to, or
/// why there is no such page.
pub struct LeaderboardPage {
    /// The members on the board, in the order of the leaderboard.
    pub board: Vec<Arc<Member>>,
    /// The page that is shown.
    pub page: Result<Page, TurnError>,
}

/// The buttons that turn the pages of a leaderboard.
pub struct LeaderboardComponent {}

impl LeaderboardComponent {
    /// The leaderboard of `guild`, which holds the members that have earned
    /// something, and the page that one step, forward or back, leads to
    /// from the page that `footer` tells.
    pub fn run(cache: &Cache, guild: &Guild, footer: &str, forward: bool) -> (shown: LeaderboardPage)
        requires
            cache.wf(),
        ensures
            ranked(shown.board@),
            forall|i: int|
                0 <= i < shown.board@.len() ==> {
                    &&& cache@.on_leaderboard(guild@, true, (#[trigger] shown.board@[i]).user_id)
                    &&& shown.board@[i]@ == cache@.members[(guild.guild_id, shown.board@[i].user_id)]
                },
            forall|u: u64|
                cache@.on_leaderboard(guild@, true, u) ==> exists|i: int|
                    0 <= i < shown.board@.len() && (#[trigger] shown.board@[i]).user_id == u,
            forall|i: int, j: int|
                0 <= i < j < shown.board@.len() ==> (#[trigger] shown.board@[i]).user_id != (
                #[trigger] shown.board@[j]).user_id,
            shown.page == spec_turn_page(footer@, forward, shown.board@.len() as int, LEADERBOARD_PAGE as int),
            shown.page matches Ok(p) ==> p.index < p.total_pages && p.start <= p.end <= shown.board@.len(),
    {
        let board = cache.leaderboard(guild, true);
        let page = turn_page(footer, forward, board.len(), LEADERBOARD_PAGE);
        LeaderboardPage { board, page }
    }
}

/// A guild's level roles and the page of them that a press of a button
/// leads to, or why there is no such page.
pub struct LevelRolesPage {
    /// The level-role table in the order of its levels.
    pub levels: LevelRoles,
    /// The page that is shown.
    pub page: Result<Page, TurnError>,
}

/// The buttons that turn the pages of a guild's level roles.
pub struct LevelRolesComponent {}

impl LevelRolesComponent {
    /// The level-role table of `guild` in the order of its levels, and the
    /// page that one step, forward or back, leads to from the page that
    /// `footer` tells.
    pub fn run(guild: &Guild, footer: &str, forward: bool) -> (shown: LevelRolesPage)
        ensures
            level_sorted(level_roles_view(shown.levels@)),
            level_roles_view(shown.levels@).to_multiset() == level_roles_view(guild.levels@).to_multiset(),
            shown.levels@.len() == guild.levels@.len(),
            shown.page == spec_turn_page(footer@, forward, guild.levels@.len() as int, LEVEL_ROLES_PAGE as int),
            shown.page matches Ok(p) ==> p.index < p.total_pages && p.start <= p.end <= shown.levels@.len(),
    {
        let levels = sorted_level_roles(&guild.levels);
        let page = turn_page(footer, forward, levels.len(), LEVEL_ROLES_PAGE);
        LevelRolesPage { levels, page }
    }
}

/// The button that turns a leaderboard kept in storage one page back.
pub struct PreviousComponent {}

impl PreviousComponent {
    /// The page that one step back leads to from the page that `footer`
    /// tells, on a leaderboard of `len` entries.
    pub fn run(footer: &str, len: usize) -> (turned: Result<Page, TurnError>)
        ensures
            turned == spec_turn_back(footer@, len as int, LEADERBOARD_PAGE as int),
            turned matches Ok(p) ==> p.index < p.total_pages && p.start <= p.end <= len,
    {
        turn_back(footer, len, LEADERBOARD_PAGE)
    }
}

} // verus!
