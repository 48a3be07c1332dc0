use guild_xp::cache::Cache;
use guild_xp::routing::{
    command_route, component_route, is_administrator, permits, same_text, InteractionKind, Route,
    ADMINISTRATOR, EMBED_LINKS, MANAGE_ROLES, REQUIRED_PERMISSIONS, SEND_MESSAGES, VIEW_CHANNEL,
};
use guild_xp::xp::Multiplier;

fn cache() -> Cache {
    let mut cache = Cache::new();
    cache.insert_guild_at(Vec::new(), 1, Vec::new(), Vec::new(), String::from("guild"), Multiplier::default(), 0);
    cache
}

#[test]
fn required_permissions_are_the_four_that_the_bot_needs() {
    assert_eq!(REQUIRED_PERMISSIONS, VIEW_CHANNEL | SEND_MESSAGES | EMBED_LINKS | MANAGE_ROLES);
    assert_eq!(ADMINISTRATOR, 1 << 3);
    assert_eq!(VIEW_CHANNEL, 1 << 10);
    assert_eq!(SEND_MESSAGES, 1 << 11);
    assert_eq!(EMBED_LINKS, 1 << 14);
    assert_eq!(MANAGE_ROLES, 1 << 28);
}

#[test]
fn permits_asks_for_every_wanted_permission() {
    assert!(permits(REQUIRED_PERMISSIONS, REQUIRED_PERMISSIONS));
    assert!(permits(u64::MAX, REQUIRED_PERMISSIONS));
    assert!(permits(0, 0));
    assert!(!permits(REQUIRED_PERMISSIONS & !EMBED_LINKS, REQUIRED_PERMISSIONS));
    assert!(!permits(0, VIEW_CHANNEL));
    assert!(is_administrator(Some(ADMINISTRATOR | VIEW_CHANNEL)));
    assert!(!is_administrator(Some(REQUIRED_PERMISSIONS)));
    assert!(!is_administrator(None));
}

#[test]
fn same_text_compares_every_character() {
    assert!(same_text("", ""));
    assert!(same_text("rank", "rank"));
    assert!(!same_text("rank", "rang"));
    assert!(!same_text("rank", "ranks"));
    assert!(!same_text("ünï", "uni"));
    assert!(same_text("ünï", "ünï"));
}

#[test]
fn commands_and_buttons_go_by_their_names() {
    assert_eq!(command_route("config"), Route::Config);
    assert_eq!(command_route("latency"), Route::Latency);
    assert_eq!(command_route("leaderboard"), Route::Leaderboard);
    assert_eq!(command_route("rank"), Route::Rank);
    assert_eq!(command_route("Rank"), Route::UnknownCommand);
    assert_eq!(command_route(""), Route::UnknownCommand);
    assert_eq!(component_route("leaderboard-next"), Route::LeaderboardPage(true));
    assert_eq!(component_route("leaderboard-previous"), Route::LeaderboardPage(false));
    assert_eq!(component_route("level-roles-next"), Route::LevelRolesPage(true));
    assert_eq!(component_route("level-roles-previous"), Route::LevelRolesPage(false));
    assert_eq!(component_route("next"), Route::UnknownComponent);
}

#[test]
fn interactions_are_turned_away_in_order() {
    let cache = cache();
    let all = Some(REQUIRED_PERMISSIONS);
    let command = InteractionKind::ApplicationCommand;
    assert_eq!(cache.route(None, Some(1), command, "rank"), Route::GuildOnly);
    assert_eq!(cache.route(all, None, command, "rank"), Route::GuildOnly);
    assert_eq!(cache.route(None, None, command, "rank"), Route::GuildOnly);
    assert_eq!(cache.route(Some(0), Some(2), command, "rank"), Route::GuildNotCached);
    assert_eq!(cache.route(Some(VIEW_CHANNEL), Some(1), command, "rank"), Route::MissingPermissions);
    assert_eq!(cache.route(all, Some(1), command, "rank"), Route::Rank);
    assert_eq!(cache.route(all, Some(1), command, "nothing"), Route::UnknownCommand);
    assert_eq!(
        cache.route(all, Some(1), InteractionKind::MessageComponent, "level-roles-next"),
        Route::LevelRolesPage(true)
    );
    assert_eq!(cache.route(all, Some(1), InteractionKind::MessageComponent, "rank"), Route::UnknownComponent);
    assert_eq!(cache.route(all, Some(1), InteractionKind::Other, "rank"), Route::UnknownInteraction);
}
