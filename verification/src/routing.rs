//! Where an interaction is sent: which command or button it is for, and
//! whether the bot can answer it at all.

use crate::cache::model::CacheView;
use crate::cache::Cache;
use vstd::prelude::*;

verus! {

/// The permission to do anything in a guild.
pub const ADMINISTRATOR: u64 = 0x8;

/// The permission to see a channel.
pub const VIEW_CHANNEL: u64 = 0x400;

/// The permission to write in a channel.
pub const SEND_MESSAGES: u64 = 0x800;

/// The permission to have links shown with what they lead to.
pub const EMBED_LINKS: u64 = 0x4000;

/// The permission to give and take roles.
pub const MANAGE_ROLES: u64 = 0x1000_0000;

/// The permissions that the bot needs in a channel to answer there.
pub const REQUIRED_PERMISSIONS: u64 = 0x1000_4c00;

/// The permissions that the bot needs are those to see a channel, to write
/// in it, to have links shown and to give and take roles.
pub proof fn lemma_required_permissions()
    ensures
        REQUIRED_PERMISSIONS == VIEW_CHANNEL | SEND_MESSAGES | EMBED_LINKS | MANAGE_ROLES,
{
    assert(0x1000_4c00u64 == 0x400u64 | 0x800u64 | 0x4000u64 | 0x1000_0000u64) by (bit_vector);
}

/// Whether the permissions `held` include all of `wanted`.
pub open spec fn spec_permits(held: u64, wanted: u64) -> bool {
    held & wanted == wanted
}

/// Whether the permissions `held` include all of `wanted`.
pub fn permits(held: u64, wanted: u64) -> (permitted: bool)
    ensures
        permitted == spec_permits(held, wanted),
{
    held & wanted == wanted
}

/// Whether a member with the permissions `held`, if any are known, may
/// change a guild's configuration: only an administrator may.
pub fn is_administrator(held: Option<u64>) -> (administrator: bool)
    ensures
        administrator == (held matches Some(bits) && spec_permits(bits, ADMINISTRATOR)),
{
    match held {
        Some(bits) => permits(bits, ADMINISTRATOR),
        None => false,
    }
}

/// Whether two texts are the same.
pub fn same_text(a: &str, b: &str) -> (same: bool)
    ensures
        same == (a@ == b@),
{
    let len = a.unicode_len();
    if len != b.unicode_len() {
        return false;
    }
    let mut i: usize = 0;
    while i < len
        invariant
            i <= len,
            len == a@.len(),
            len == b@.len(),
            forall|j: int| 0 <= j < i ==> a@[j] == b@[j],
        decreases len - i,
    {
        if a.get_char(i) != b.get_char(i) {
            return false;
        }
        i += 1;
    }
    assert(a@ =~= b@);
    true
}

/// What an interaction carries.
#[derive(Clone, Copy, Debug, PartialEq, Eq, Structural)]
pub enum InteractionKind {
    /// A command, with its name.
    ApplicationCommand,
    /// A press of a button, with the button's identifier.
    MessageComponent,
    /// Anything else.
    Other,
}

/// Where an interaction is sent.
#[derive(Clone, Copy, Debug, PartialEq, Eq, Structural)]
pub enum Route {
    /// It was not made in a guild: the bot says that it works in guilds only.
    GuildOnly,
    /// Its guild is not held: the bot asks to be invited again.
    GuildNotCached,
    /// The bot lacks a permission that it needs: it says which it needs.
    MissingPermissions,
    /// The command that manages the configuration.
    Config,
    /// The command that tells the latency.
    Latency,
    /// The command that shows the leaderboard.
    Leaderboard,
    /// The command that shows a member's rank.
    Rank,
    /// A command that the bot does not know.
    UnknownCommand,
    /// A button under the leaderboard, forward where the flag is set.
    LeaderboardPage(bool),
    /// A button under the level roles, forward where the flag is set.
    LevelRolesPage(bool),
    /// A button that the bot does not know.
    UnknownComponent,
    /// An interaction that is neither a command nor a button.
    UnknownInteraction,
}

/// The command that `name` names.
pub open spec fn spec_command_route(name: Seq<char>) -> Route {
    if name == "config"@ {
        Route::Config
    } else if name == "latency"@ {
        Route::Latency
    } else if name == "leaderboard"@ {
        Route::Leaderboard
    } else if name == "rank"@ {
        Route::Rank
    } else {
        Route::UnknownCommand
    }
}

/// The button that `custom_id` names.
pub open spec fn spec_component_route(custom_id: Seq<char>) -> Route {
    if custom_id == "leaderboard-next"@ {
        Route::LeaderboardPage(true)
    } else if custom_id == "leaderboard-previous"@ {
        Route::LeaderboardPage(false)
    } else if custom_id == "level-roles-next"@ {
        Route::LevelRolesPage(true)
    } else if custom_id == "level-roles-previous"@ {
        Route::LevelRolesPage(false)
    } else {
        Route::UnknownComponent
    }
}

impl CacheView {
    /// Where an interaction is sent. One that was not made in a guild, or
    /// whose guild is not held, or for which the bot lacks a permission that
    /// it needs, is turned away, in that order; any other goes by its kind
    /// and its name.
    pub open spec fn route(
        self,
        app_permissions: Option<u64>,
        guild_id: Option<u64>,
        kind: InteractionKind,
        name: Seq<char>,
    ) -> Route {
        if app_permissions is None || guild_id is None {
            Route::GuildOnly
        } else if !self.guilds.contains_key(guild_id->0) {
            Route::GuildNotCached
        } else if !spec_permits(app_permissions->0, REQUIRED_PERMISSIONS) {
            Route::MissingPermissions
        } else {
            match kind {
                InteractionKind::ApplicationCommand => spec_command_route(name),
                InteractionKind::MessageComponent => spec_component_route(name),
                InteractionKind::Other => Route::UnknownInteraction,
            }
        }
    }
}

/// The command that `name` names.
pub fn command_route(name: &str) -> (route: Route)
    ensures
        route == spec_command_route(name@),
{
    if same_text(name, "config") {
        Route::Config
    } else if same_text(name, "latency") {
        Route::Latency
    } else if same_text(name, "leaderboard") {
        Route::Leaderboard
    } else if same_text(name, "rank") {
        Route::Rank
    } else {
        Route::UnknownCommand
    }
}

/// The button that `custom_id` names.
pub fn component_route(custom_id: &str) -> (route: Route)
    ensures
        route == spec_component_route(custom_id@),
{
    if same_text(custom_id, "leaderboard-next") {
        Route::LeaderboardPage(true)
    } else if same_text(custom_id, "leaderboard-previous") {
        Route::LeaderboardPage(false)
    } else if same_text(custom_id, "level-roles-next") {
        Route::LevelRolesPage(true)
    } else if same_text(custom_id, "level-roles-previous") {
        Route::LevelRolesPage(false)
    } else {
        Route::UnknownComponent
    }
}

impl Cache {
    /// Where an interaction is sent, given the permissions that the bot has
    /// where it was made, the guild that it was made in, its kind, and the
    /// name of its command or the identifier of its button.
    pub fn route(
        &self,
        app_permissions: Option<u64>,
        guild_id: Option<u64>,
        kind: InteractionKind,
        name: &str,
    ) -> (route: Route)
        ensures
            route == self@.route(app_permissions, guild_id, kind, name@),
    {
        let held = match app_permissions {
            Some(held) => held,
            None => {
                return Route::GuildOnly;
            },
        };
        let guild_id = match guild_id {
            Some(guild_id) => guild_id,
            None => {
                return Route::GuildOnly;
            },
        };
        if self.get_guild(guild_id).is_none() {
            return Route::GuildNotCached;
        }
        if !permits(held, REQUIRED_PERMISSIONS) {
            return Route::MissingPermissions;
        }
        match kind {
            InteractionKind::ApplicationCommand => command_route(name),
            InteractionKind::MessageComponent => component_route(name),
            InteractionKind::Other => Route::UnknownInteraction,
        }
    }
}

} // verus!
