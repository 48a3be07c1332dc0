use guild_xp::cache::Cache;
use guild_xp::leaderboard::{leaderboard_lines, position_on, rank_index, rank_order};
use guild_xp::pages::Page;
use guild_xp::types::{Guild, Member};
use guild_xp::xp::Multiplier;
use std::cmp::Ordering;
use std::collections::HashSet;

fn member(user_id: u64, xp: i64, last: Option<i64>, joined: Option<i64>) -> Member {
    Member {
        avatar_url: String::new(),
        bot: false,
        discriminator: 0,
        guild_id: 1,
        joined_voice_timestamp: joined,
        last_message_timestamp: last,
        role_ids: HashSet::new(),
        user_id,
        username: String::new(),
        voice_channel_id: joined.map(|_| 11),
        xp,
    }
}

fn put(cache: &mut Cache, m: Member) {
    cache.insert_member(
        m.avatar_url,
        m.bot,
        m.discriminator,
        m.guild_id,
        m.joined_voice_timestamp,
        m.last_message_timestamp,
        m.role_ids,
        m.user_id,
        m.username,
        m.voice_channel_id,
        m.xp,
    );
}

fn guild(member_ids: &[u64]) -> Guild {
    Guild {
        channel_ids: HashSet::new(),
        guild_id: 1,
        levels: Vec::new(),
        member_ids: member_ids.iter().copied().collect(),
        name: String::new(),
        xp_multiplier: Multiplier::default(),
    }
}

#[test]
fn more_experience_ranks_first() {
    assert_eq!(rank_order(&member(1, 10, None, None), &member(2, 5, Some(9), Some(9))), Ordering::Less);
    assert_eq!(rank_order(&member(1, 5, Some(9), Some(9)), &member(2, 10, None, None)), Ordering::Greater);
}

#[test]
fn equal_experience_is_ranked_by_the_later_message_then_the_later_session() {
    assert_eq!(rank_order(&member(1, 5, Some(9), None), &member(2, 5, Some(8), Some(1))), Ordering::Less);
    assert_eq!(rank_order(&member(1, 5, None, Some(7)), &member(2, 5, Some(0), None)), Ordering::Greater);
    assert_eq!(rank_order(&member(1, 5, Some(3), Some(7)), &member(2, 5, Some(3), Some(6))), Ordering::Less);
    assert_eq!(rank_order(&member(1, 5, Some(3), None), &member(2, 5, Some(3), Some(6))), Ordering::Greater);
    assert_eq!(rank_order(&member(1, 5, Some(3), Some(6)), &member(2, 5, Some(3), Some(6))), Ordering::Equal);
    assert_eq!(rank_order(&member(1, 5, None, None), &member(2, 5, None, None)), Ordering::Equal);
}

#[test]
fn leaderboard_lists_the_roster_in_rank_order() {
    let mut cache = Cache::new();
    put(&mut cache, member(1, 5, Some(3), None));
    put(&mut cache, member(2, 50, None, None));
    put(&mut cache, member(3, 5, Some(4), None));
    put(&mut cache, member(4, 0, None, None));
    put(&mut cache, member(5, 5, Some(3), Some(1)));
    put(&mut cache, member(6, 700, None, None));
    let board = cache.leaderboard(&guild(&[1, 2, 3, 4, 5, 9]), false);
    assert_eq!(board.iter().map(|m| m.user_id).collect::<Vec<u64>>(), vec![2, 3, 5, 1, 4]);
    let board = cache.leaderboard(&guild(&[1, 2, 3, 4, 5, 9]), true);
    assert_eq!(board.iter().map(|m| m.user_id).collect::<Vec<u64>>(), vec![2, 3, 5, 1]);
    assert!(cache.leaderboard(&guild(&[]), false).is_empty());
    assert!(cache.leaderboard(&guild(&[9]), false).is_empty());
}

#[test]
fn leaderboard_of_many_members_is_sorted() {
    let mut cache = Cache::new();
    let mut member_ids = Vec::new();
    for user_id in 1..=200u64 {
        put(&mut cache, member(user_id, ((user_id * 7919) % 61) as i64, Some((user_id % 5) as i64), None));
        member_ids.push(user_id);
    }
    let board = cache.leaderboard(&guild(&member_ids), false);
    assert_eq!(board.len(), 200);
    for pair in board.windows(2) {
        assert_ne!(rank_order(&pair[0], &pair[1]), Ordering::Greater);
    }
    let mut seen: Vec<u64> = board.iter().map(|m| m.user_id).collect();
    seen.sort();
    assert_eq!(seen, member_ids);
}

#[test]
fn position_is_the_first_place_of_the_member() {
    let mut cache = Cache::new();
    put(&mut cache, member(1, 5, None, None));
    put(&mut cache, member(2, 50, None, None));
    put(&mut cache, member(3, 500, None, None));
    let board = cache.leaderboard(&guild(&[1, 2, 3]), false);
    assert_eq!(position_on(&board, 3), Some(0));
    assert_eq!(position_on(&board, 2), Some(1));
    assert_eq!(position_on(&board, 1), Some(2));
    assert_eq!(position_on(&board, 4), None);
    assert_eq!(position_on(&Vec::new(), 4), None);
}

#[test]
fn rank_of_a_member_off_the_board_is_the_last_of_the_roster() {
    let mut cache = Cache::new();
    put(&mut cache, member(1, 5, None, None));
    put(&mut cache, member(2, 50, None, None));
    let board = cache.leaderboard(&guild(&[1, 2]), false);
    assert_eq!(rank_index(&board, 2, 2), 0);
    assert_eq!(rank_index(&board, 1, 2), 1);
    assert_eq!(rank_index(&board, 1, 0), 1);
    assert_eq!(rank_index(&board, 7, 2), 1);
    assert_eq!(rank_index(&board, 7, 40), 39);
}

#[test]
fn lines_carry_rank_name_and_separated_experience() {
    let mut cache = Cache::new();
    let mut first = member(1, 1_234_567, None, None);
    first.username = String::from("ada");
    first.discriminator = 7;
    put(&mut cache, first);
    put(&mut cache, member(2, 50, None, None));
    put(&mut cache, member(3, 5, None, None));
    let board = cache.leaderboard(&guild(&[1, 2, 3]), false);
    let lines = leaderboard_lines(&board, &Page { index: 0, total_pages: 1, start: 0, end: 3 });
    assert_eq!(lines.len(), 3);
    assert_eq!(lines[0].rank, 1);
    assert_eq!(lines[0].username, "ada");
    assert_eq!(lines[0].discriminator, 7);
    assert_eq!(lines[0].xp, "1,234,567");
    assert_eq!(lines[2].rank, 3);
    assert_eq!(lines[2].xp, "5");
    let lines = leaderboard_lines(&board, &Page { index: 1, total_pages: 2, start: 2, end: 3 });
    assert_eq!(lines.len(), 1);
    assert_eq!(lines[0].rank, 3);
    assert!(leaderboard_lines(&board, &Page { index: 0, total_pages: 0, start: 0, end: 0 }).is_empty());
}
