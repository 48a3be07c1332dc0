use guild_xp::cache::Cache;
use guild_xp::commands::{ConfigViewLevelRolesCommand, LatencyCommand, LeaderboardCommand};
use guild_xp::components::{LeaderboardComponent, LevelRolesComponent, PreviousComponent};
use guild_xp::interaction::DeferInteractionPayload;
use guild_xp::pages::{
    page, page_bounds, page_count, page_index, turn_back, turn_page, turned_page, FooterError, Page,
    TurnError,
};
use guild_xp::types::{Guild, LevelRoles};
use guild_xp::xp::Multiplier;
use std::collections::HashSet;

fn set(list: &[u64]) -> HashSet<u64> {
    list.iter().copied().collect()
}

fn guild_with(member_ids: &[u64], levels: LevelRoles) -> Guild {
    Guild {
        channel_ids: HashSet::new(),
        guild_id: 1,
        levels,
        member_ids: set(member_ids),
        name: String::from("guild"),
        xp_multiplier: Multiplier::default(),
    }
}

fn cache_of(count: u64) -> (Cache, Guild) {
    let mut cache = Cache::new();
    let mut member_ids = Vec::new();
    for user_id in 1..=count {
        member_ids.push(user_id);
        cache.insert_member(
            String::new(),
            false,
            0,
            1,
            None,
            None,
            HashSet::new(),
            user_id,
            format!("user{user_id}"),
            None,
            (user_id as i64 - 1) * 10,
        );
    }
    (cache, guild_with(&member_ids, Vec::new()))
}

#[test]
fn page_count_rounds_up() {
    assert_eq!(page_count(0, 10), 0);
    assert_eq!(page_count(1, 10), 1);
    assert_eq!(page_count(10, 10), 1);
    assert_eq!(page_count(11, 10), 2);
    assert_eq!(page_count(25, 5), 5);
    assert_eq!(page_count(26, 5), 6);
    assert_eq!(page_count(usize::MAX, 1), usize::MAX);
    assert_eq!(page_count(usize::MAX, usize::MAX), 1);
}

#[test]
fn turned_page_wraps_around() {
    assert_eq!(turned_page(0, 3, true), 1);
    assert_eq!(turned_page(2, 3, true), 0);
    assert_eq!(turned_page(0, 3, false), 2);
    assert_eq!(turned_page(1, 3, false), 0);
    assert_eq!(turned_page(0, 1, true), 0);
    assert_eq!(turned_page(0, 1, false), 0);
    assert_eq!(turned_page(7, 3, true), 2);
}

#[test]
fn page_bounds_skip_and_take() {
    assert_eq!(page_bounds(0, 10, 25), (0, 10));
    assert_eq!(page_bounds(1, 10, 25), (10, 20));
    assert_eq!(page_bounds(2, 10, 25), (20, 25));
    assert_eq!(page_bounds(3, 10, 25), (25, 25));
    assert_eq!(page_bounds(0, 10, 0), (0, 0));
    assert_eq!(page_bounds(usize::MAX, 10, 25), (25, 25));
    assert_eq!(page(1, 12, 5), Page { index: 1, total_pages: 3, start: 5, end: 10 });
}

#[test]
fn page_index_reads_the_second_word_of_the_footer() {
    assert_eq!(page_index("Page 3 of 7"), Ok(2));
    assert_eq!(page_index("Page 1 of 1"), Ok(0));
    assert_eq!(page_index("Page +12 of 40"), Ok(11));
    assert_eq!(page_index("Page 007"), Ok(6));
    assert_eq!(page_index("x 18446744073709551615"), Ok(usize::MAX - 1));
}

#[test]
fn page_index_tells_why_a_footer_cannot_be_read() {
    assert_eq!(page_index(""), Err(FooterError::NoPageNumber));
    assert_eq!(page_index("Page"), Err(FooterError::NoPageNumber));
    assert_eq!(page_index("Page "), Err(FooterError::NotANumber));
    assert_eq!(page_index("Page  3"), Err(FooterError::NotANumber));
    assert_eq!(page_index("Page three of 7"), Err(FooterError::NotANumber));
    assert_eq!(page_index("Page 3a of 7"), Err(FooterError::NotANumber));
    assert_eq!(page_index("Page -3 of 7"), Err(FooterError::NotANumber));
    assert_eq!(page_index("Page + of 7"), Err(FooterError::NotANumber));
    assert_eq!(page_index("Page ++3 of 7"), Err(FooterError::NotANumber));
    assert_eq!(page_index("Page ٣ of 7"), Err(FooterError::NotANumber));
    assert_eq!(page_index("x 18446744073709551616"), Err(FooterError::NotANumber));
    assert_eq!(page_index("x 99999999999999999999999"), Err(FooterError::NotANumber));
    assert_eq!(page_index("Page 0 of 7"), Err(FooterError::PageZero));
    assert_eq!(page_index("Page +000 of 7"), Err(FooterError::PageZero));
}

#[test]
fn page_index_agrees_with_the_standard_parser() {
    for word in ["1", "+1", "42", "0", "", "+", "-1", "4 2", "12x", "１２", "00012"] {
        let footer = format!("Page {word} of 9");
        let second = footer.split(" ").nth(1).unwrap();
        let expected = match second.parse::<usize>() {
            Err(_) => Err(FooterError::NotANumber),
            Ok(0) => Err(FooterError::PageZero),
            Ok(number) => Ok(number - 1),
        };
        assert_eq!(page_index(&footer), expected);
    }
}

#[test]
fn turn_page_steps_and_wraps() {
    assert_eq!(
        turn_page("Page 1 of 3", true, 25, 10),
        Ok(Page { index: 1, total_pages: 3, start: 10, end: 20 })
    );
    assert_eq!(
        turn_page("Page 3 of 3", true, 25, 10),
        Ok(Page { index: 0, total_pages: 3, start: 0, end: 10 })
    );
    assert_eq!(
        turn_page("Page 1 of 3", false, 25, 10),
        Ok(Page { index: 2, total_pages: 3, start: 20, end: 25 })
    );
    assert_eq!(turn_page("Page 1 of 3", false, 0, 10), Err(TurnError::NoPages));
    assert_eq!(turn_page("Page", false, 25, 10), Err(TurnError::Footer(FooterError::NoPageNumber)));
    assert_eq!(turn_page("Page 0 of 3", true, 25, 10), Err(TurnError::Footer(FooterError::PageZero)));
    assert_eq!(turn_page("x 18446744073709551615", true, 25, 10), Err(TurnError::OutOfReach));
}

#[test]
fn turn_back_steps_from_the_page_number_alone() {
    assert_eq!(turn_back("Page 2 of 3", 25, 10), Ok(Page { index: 0, total_pages: 3, start: 0, end: 10 }));
    assert_eq!(turn_back("Page 3 of 3", 25, 10), Ok(Page { index: 1, total_pages: 3, start: 10, end: 20 }));
    assert_eq!(turn_back("Page 9 of 3", 25, 10), Ok(Page { index: 1, total_pages: 3, start: 10, end: 20 }));
    assert_eq!(turn_back("Page 1 of 3", 25, 10), Err(TurnError::OutOfReach));
    assert_eq!(turn_back("Page 2 of 3", 0, 10), Err(TurnError::NoPages));
    assert_eq!(PreviousComponent::run("Page 2 of 3", 25), turn_back("Page 2 of 3", 25, 10));
    assert_eq!(PreviousComponent::run("Page x of 3", 25), Err(TurnError::Footer(FooterError::NotANumber)));
}

#[test]
fn round_trip_is_the_difference_of_the_identifier_times() {
    let interaction = 1_000u64 << 22;
    let response = (1_250u64 << 22) | 0x3f_ffff;
    assert_eq!(LatencyCommand::round_trip_millis(response, interaction), 250);
    assert_eq!(LatencyCommand::round_trip_millis(interaction, interaction), 0);
    assert_eq!(LatencyCommand::round_trip_millis(u64::MAX, 0), (1u64 << 42) - 1);
}

#[test]
fn leaderboard_command_shows_the_first_ten() {
    let (cache, guild) = cache_of(12);
    let first = LeaderboardCommand::first_page(&cache, &guild);
    assert_eq!(first.board.len(), 12);
    assert_eq!(first.board[0].user_id, 12);
    assert_eq!(first.board[11].user_id, 1);
    assert_eq!(first.page, Page { index: 0, total_pages: 2, start: 0, end: 10 });
    assert!(first.paged);
    let (cache, guild) = cache_of(10);
    let first = LeaderboardCommand::first_page(&cache, &guild);
    assert_eq!(first.page, Page { index: 0, total_pages: 1, start: 0, end: 10 });
    assert!(!first.paged);
    let (cache, guild) = cache_of(0);
    let first = LeaderboardCommand::first_page(&cache, &guild);
    assert!(first.board.is_empty());
    assert_eq!(first.page, Page { index: 0, total_pages: 0, start: 0, end: 0 });
}

#[test]
fn leaderboard_component_turns_the_page_among_earners() {
    let (cache, guild) = cache_of(12);
    let shown = LeaderboardComponent::run(&cache, &guild, "Page 1 of 2", true);
    assert_eq!(shown.board.len(), 11);
    assert_eq!(shown.page, Ok(Page { index: 1, total_pages: 2, start: 10, end: 11 }));
    assert_eq!(shown.board[10].user_id, 2);
    let shown = LeaderboardComponent::run(&cache, &guild, "Page 1 of 2", false);
    assert_eq!(shown.page.map(|page| page.index), Ok(1));
    let shown = LeaderboardComponent::run(&cache, &guild, "Page 2 of 2", true);
    assert_eq!(shown.page, Ok(Page { index: 0, total_pages: 2, start: 0, end: 10 }));
    assert_eq!(shown.board[0].user_id, 12);
    let (cache, guild) = cache_of(1);
    let shown = LeaderboardComponent::run(&cache, &guild, "Page 1 of 1", true);
    assert!(shown.board.is_empty());
    assert_eq!(shown.page, Err(TurnError::NoPages));
    assert_eq!(
        LeaderboardComponent::run(&cache, &guild, "nothing", true).page,
        Err(TurnError::Footer(FooterError::NoPageNumber))
    );
}

#[test]
fn level_roles_are_shown_five_to_a_page_in_the_order_of_their_levels() {
    let levels: LevelRoles = vec![
        (9, set(&[1])),
        (2, set(&[2])),
        (7, set(&[3])),
        (1, set(&[4])),
        (5, set(&[5])),
        (3, set(&[6])),
    ];
    let guild = guild_with(&[], levels);
    let first = ConfigViewLevelRolesCommand::first_page(&guild);
    assert_eq!(first.levels.iter().map(|entry| entry.0).collect::<Vec<u64>>(), vec![1, 2, 3, 5, 7, 9]);
    assert_eq!(first.levels[3], (5, set(&[5])));
    assert_eq!(first.page, Page { index: 0, total_pages: 2, start: 0, end: 5 });
    assert!(first.paged);
    let shown = LevelRolesComponent::run(&guild, "Page 1 of 2", true);
    assert_eq!(shown.page, Ok(Page { index: 1, total_pages: 2, start: 5, end: 6 }));
    assert_eq!(shown.levels[5].0, 9);
    let shown = LevelRolesComponent::run(&guild, "Page 1 of 2", false);
    assert_eq!(shown.page.map(|page| page.index), Ok(1));
    let few = guild_with(&[], vec![(1, set(&[4]))]);
    assert!(!ConfigViewLevelRolesCommand::first_page(&few).paged);
    assert_eq!(
        LevelRolesComponent::run(&guild_with(&[], Vec::new()), "Page 1 of 2", true).page,
        Err(TurnError::NoPages)
    );
}

#[test]
fn deferred_answers_are_public_by_default() {
    assert_eq!(DeferInteractionPayload::default(), DeferInteractionPayload { ephemeral: false });
}
