//! The leaderboard: the members of a guild in the order of what they have
//! earned.

use crate::cache::Cache;
use crate::cache::model::CacheView;
use crate::outside::sort_by_rank;
use crate::pages::Page;
use crate::sets::{gathered, lemma_gather_step, lemma_gathered_all, lemma_iter_walks, walks};
use crate::text::{separated_with_commas, with_commas};
use crate::types::{Guild, GuildView, Member, MemberView};
use std::cmp::Ordering;
use std::sync::Arc;
use vstd::prelude::*;
use vstd::std_specs::iter::IteratorSpec;

verus! {

broadcast use vstd::std_specs::hash::group_hash_axioms;

/// Whether the point in time `a` is later than `b`, where an absent one is
/// earlier than any.
pub open spec fn later(a: Option<i64>, b: Option<i64>) -> bool {
    match (a, b) {
        (Some(x), Some(y)) => x > y,
        (Some(_), None) => true,
        _ => false,
    }
}

/// Whether `a` stands before `b` on the leaderboard: it has more
/// experience; or as much, and wrote its last earning message later; or
/// that too is the same, and its voice session began later.
pub open spec fn ranks_before(a: MemberView, b: MemberView) -> bool {
    ||| a.xp > b.xp
    ||| a.xp == b.xp && later(a.last_message_timestamp, b.last_message_timestamp)
    ||| a.xp == b.xp && a.last_message_timestamp == b.last_message_timestamp && later(
        a.joined_voice_timestamp,
        b.joined_voice_timestamp,
    )
}

/// Whether `board` is in the order of the leaderboard: no member stands
/// behind one that it ranks before.
pub open spec fn ranked(board: Seq<Arc<Member>>) -> bool {
    forall|i: int, j: int| 0 <= i < j < board.len() ==> !ranks_before(board[j]@, board[i]@)
}

/// The order of the leaderboard is a strict one: no member ranks before
/// itself, and ranking before carries over from one member to the next.
pub proof fn lemma_rank_is_strict_order(a: MemberView, b: MemberView, c: MemberView)
    ensures
        !ranks_before(a, a),
        ranks_before(a, b) ==> !ranks_before(b, a),
        ranks_before(a, b) && ranks_before(b, c) ==> ranks_before(a, c),
        !ranks_before(a, b) && !ranks_before(b, c) ==> !ranks_before(a, c),
{
}

fn is_later(a: Option<i64>, b: Option<i64>) -> (result: bool)
    ensures
        result == later(a, b),
{
    match a {
        Some(x) => match b {
            Some(y) => x > y,
            None => true,
        },
        None => false,
    }
}

/// How `a` and `b` stand on the leaderboard: `Less` where `a` ranks before
/// `b`, `Greater` where `b` ranks before `a`, `Equal` where neither does.
pub fn rank_order(a: &Member, b: &Member) -> (order: Ordering)
    ensures
        order == Ordering::Less <==> ranks_before(a@, b@),
        order == Ordering::Greater <==> ranks_before(b@, a@),
{
    if a.xp > b.xp {
        Ordering::Less
    } else if a.xp < b.xp {
        Ordering::Greater
    } else if is_later(a.last_message_timestamp, b.last_message_timestamp) {
        Ordering::Less
    } else if is_later(b.last_message_timestamp, a.last_message_timestamp) {
        Ordering::Greater
    } else if is_later(a.joined_voice_timestamp, b.joined_voice_timestamp) {
        Ordering::Less
    } else if is_later(b.joined_voice_timestamp, a.joined_voice_timestamp) {
        Ordering::Greater
    } else {
        Ordering::Equal
    }
}

impl CacheView {
    /// Whether the member `user_id` of `guild` belongs on its leaderboard:
    /// the roster lists it and it is held; where only earners are asked
    /// for, it has earned something.
    pub open spec fn on_leaderboard(self, guild: GuildView, earners_only: bool, user_id: u64) -> bool {
        &&& guild.member_ids.contains(user_id)
        &&& self.members.contains_key((guild.guild_id, user_id))
        &&& earners_only ==> self.members[(guild.guild_id, user_id)].xp > 0
    }
}

impl Cache {
    /// The leaderboard of `guild`: the snapshots of the members that its
    /// roster lists and the cache holds, those that have earned something
    /// where `earners_only` is set, in the order of the leaderboard.
    pub fn leaderboard(&self, guild: &Guild, earners_only: bool) -> (board: Vec<Arc<Member>>)
        requires
            self.wf(),
        ensures
            ranked(board@),
            forall|i: int|
                0 <= i < board@.len() ==> {
                    &&& self@.on_leaderboard(guild@, earners_only, (#[trigger] board@[i]).user_id)
                    &&& board@[i]@ == self@.members[(guild.guild_id, board@[i].user_id)]
                },
            forall|u: u64|
                self@.on_leaderboard(guild@, earners_only, u) ==> exists|i: int|
                    0 <= i < board@.len() && (#[trigger] board@[i]).user_id == u,
            forall|i: int, j: int|
                0 <= i < j < board@.len() ==> (#[trigger] board@[i]).user_id != (#[trigger] board@[j]).user_id,
    {
        let ghost keys = guild.member_ids.iter().remaining();
        let ghost wanted = |u: u64| self@.on_leaderboard(guild@, earners_only, u);
        proof {
            lemma_iter_walks(&guild.member_ids);
        }
        let mut board: Vec<Arc<Member>> = Vec::new();
        for id in it: guild.member_ids.iter()
            invariant
                it.seq() == keys,
                walks(keys, guild.member_ids@),
                self.wf(),
                wanted == |u: u64| self@.on_leaderboard(guild@, earners_only, u),
                gathered(keys, it.index(), board_user_ids(board@), wanted),
                forall|i: int|
                    0 <= i < board@.len() ==> (#[trigger] board@[i])@ == self@.members[(
                        guild.guild_id,
                        board@[i].user_id,
                    )],
        {
            let ghost before = board_user_ids(board@);
            match self.get_member(guild.guild_id, *id) {
                Some(member) => {
                    if !earners_only || member.xp > 0 {
                        board.push(member);
                    }
                },
                None => {},
            }
            proof {
                assert(*id == *keys[it.index()]);
                assert(guild.member_ids@.contains(*id));
                assert(wanted(*id) == self@.on_leaderboard(guild@, earners_only, *id));
                assert(board_user_ids(board@) =~= (if wanted(*id) {
                    before.push(*id)
                } else {
                    before
                }));
                lemma_gather_step(keys, guild.member_ids@, it.index(), before, board_user_ids(board@), wanted);
            }
        }
        let ghost collected = board@;
        sort_by_rank(&mut board);
        proof {
            lemma_gathered_all(keys, guild.member_ids@, board_user_ids(collected), wanted);
            lemma_same_members(collected, board@);
            assert forall|i: int| 0 <= i < board@.len() implies {
                &&& self@.on_leaderboard(guild@, earners_only, (#[trigger] board@[i]).user_id)
                &&& board@[i]@ == self@.members[(guild.guild_id, board@[i].user_id)]
            } by {
                assert(collected.contains(board@[i]));
                let k = choose|k: int| 0 <= k < collected.len() && collected[k] == board@[i];
                assert(board_user_ids(collected)[k] == board@[i].user_id);
                assert(board_user_ids(collected).contains(board@[i].user_id));
            }
            assert forall|u: u64| self@.on_leaderboard(guild@, earners_only, u) implies exists|i: int|
                0 <= i < board@.len() && (#[trigger] board@[i]).user_id == u by {
                assert(board_user_ids(collected).contains(u));
                let k = choose|k: int| 0 <= k < collected.len() && board_user_ids(collected)[k] == u;
                assert(collected.contains(collected[k]));
                let i = choose|i: int| 0 <= i < board@.len() && board@[i] == collected[k];
                assert(board@[i].user_id == u);
            }
        }
        board
    }
}

/// The members on `board`, each by its identifier.
pub open spec fn board_user_ids(board: Seq<Arc<Member>>) -> Seq<u64> {
    Seq::new(board.len(), |i: int| board[i].user_id)
}

/// A board that holds the members of another, each as often, holds each
/// member that the other holds; and where the other names no member twice,
/// neither does the board.
pub proof fn lemma_same_members(collected: Seq<Arc<Member>>, board: Seq<Arc<Member>>)
    requires
        board.to_multiset() == collected.to_multiset(),
        board_user_ids(collected).no_duplicates(),
    ensures
        forall|i: int| 0 <= i < board.len() ==> collected.contains(#[trigger] board[i]),
        forall|k: int| 0 <= k < collected.len() ==> board.contains(#[trigger] collected[k]),
        forall|i: int, j: int|
            0 <= i < j < board.len() ==> (#[trigger] board[i]).user_id != (#[trigger] board[j]).user_id,
{
    collected.to_multiset_ensures();
    board.to_multiset_ensures();
    assert forall|i: int| 0 <= i < board.len() implies collected.contains(#[trigger] board[i]) by {
        assert(board.contains(board[i]));
        assert(board.to_multiset().count(board[i]) > 0);
        assert(collected.to_multiset().count(board[i]) > 0);
    }
    assert forall|k: int| 0 <= k < collected.len() implies board.contains(#[trigger] collected[k]) by {
        assert(collected.contains(collected[k]));
        assert(collected.to_multiset().count(collected[k]) > 0);
        assert(board.to_multiset().count(collected[k]) > 0);
    }
    assert(collected.no_duplicates()) by {
        assert forall|a: int, b: int| 0 <= a < collected.len() && 0 <= b < collected.len() && a
            != b implies collected[a] != collected[b] by {
            assert(board_user_ids(collected)[a] != board_user_ids(collected)[b]);
        }
    }
    collected.lemma_multiset_has_no_duplicates();
    board.lemma_multiset_has_no_duplicates_conv();
    assert forall|i: int, j: int| 0 <= i < j < board.len() implies (#[trigger] board[i]).user_id != (
    #[trigger] board[j]).user_id by {
        assert(board[i] != board[j]);
        assert(collected.contains(board[i]) && collected.contains(board[j]));
        let a = choose|a: int| 0 <= a < collected.len() && collected[a] == board[i];
        let b = choose|b: int| 0 <= b < collected.len() && collected[b] == board[j];
        assert(a != b);
        assert(board_user_ids(collected)[a] != board_user_ids(collected)[b]);
    }
}

/// Where the member `user_id` stands on `board`, counted from zero: the
/// first place that holds it, or `None` where it is not on the board.
pub fn position_on(board: &Vec<Arc<Member>>, user_id: u64) -> (position: Option<usize>)
    ensures
        match position {
            Some(p) => p < board@.len() && board@[p as int].user_id == user_id && forall|i: int|
                0 <= i < p ==> (#[trigger] board@[i]).user_id != user_id,
            None => forall|i: int| 0 <= i < board@.len() ==> (#[trigger] board@[i]).user_id != user_id,
        },
{
    let mut i: usize = 0;
    while i < board.len()
        invariant
            i <= board.len(),
            forall|j: int| 0 <= j < i ==> (#[trigger] board@[j]).user_id != user_id,
        decreases board.len() - i,
    {
        if board[i].user_id == user_id {
            return Some(i);
        }
        i += 1;
    }
    None
}

/// The place, counted from zero, at which the member `user_id` is shown
/// to stand: its position on `board`, or, where it is not on the board, the
/// last place of a roster of `roster_len` members.
pub fn rank_index(board: &Vec<Arc<Member>>, user_id: u64, roster_len: usize) -> (index: usize)
    requires
        roster_len > 0 || exists|i: int| 0 <= i < board@.len() && (#[trigger] board@[i]).user_id == user_id,
    ensures
        match position_of(board@, user_id) {
            Some(p) => index == p,
            None => index == roster_len - 1,
        },
{
    match position_on(board, user_id) {
        Some(position) => {
            proof {
                lemma_position_of(board@, user_id, position as int);
            }
            position
        },
        None => {
            proof {
                if position_of(board@, user_id) is Some {
                    let p = choose|p: int| is_first_place(board@, user_id, p);
                    assert(board@[p].user_id == user_id);
                }
            }
            roster_len - 1
        },
    }
}

/// Whether `place` is the first place of `board` that holds `user_id`.
pub open spec fn is_first_place(board: Seq<Arc<Member>>, user_id: u64, place: int) -> bool {
    &&& 0 <= place < board.len()
    &&& board[place].user_id == user_id
    &&& forall|i: int| 0 <= i < place ==> (#[trigger] board[i]).user_id != user_id
}

/// The first place of `board` that holds `user_id`, if any does.
pub open spec fn position_of(board: Seq<Arc<Member>>, user_id: u64) -> Option<int> {
    if exists|p: int| is_first_place(board, user_id, p) {
        Some(choose|p: int| is_first_place(board, user_id, p))
    } else {
        None
    }
}

/// The first place that holds a member is the only first one.
pub proof fn lemma_position_of(board: Seq<Arc<Member>>, user_id: u64, place: int)
    requires
        is_first_place(board, user_id, place),
    ensures
        position_of(board, user_id) == Some(place),
{
    let found = choose|p: int| is_first_place(board, user_id, p);
    if found < place {
        assert(board[found].user_id != user_id);
    } else if place < found {
        assert(board[place].user_id != user_id);
    }
}

/// A line of the leaderboard as it is shown: the member's rank, its name
/// and discriminator, and its experience written out with commas.
pub struct LeaderboardLine {
    pub rank: usize,
    pub username: String,
    pub discriminator: u16,
    pub xp: String,
}

/// The lines of the page `page` of `board`: one for each member that the
/// page shows, in order. The member at place `k` of the board has the rank
/// `k + 1`.
pub fn leaderboard_lines(board: &Vec<Arc<Member>>, page: &Page) -> (lines: Vec<LeaderboardLine>)
    requires
        page.start <= page.end <= board@.len(),
    ensures
        lines@.len() == page.end - page.start,
        forall|i: int|
            0 <= i < lines@.len() ==> {
                &&& (#[trigger] lines@[i]).rank == page.start + i + 1
                &&& lines@[i].username@ == board@[page.start + i].username@
                &&& lines@[i].discriminator == board@[page.start + i].discriminator
                &&& lines@[i].xp@ == separated_with_commas(board@[page.start + i].xp as int)
            },
{
    let mut lines: Vec<LeaderboardLine> = Vec::new();
    let mut place: usize = page.start;
    while place < page.end
        invariant
            page.start <= place <= page.end <= board@.len(),
            lines@.len() == place - page.start,
            forall|i: int|
                0 <= i < lines@.len() ==> {
                    &&& (#[trigger] lines@[i]).rank == page.start + i + 1
                    &&& lines@[i].username@ == board@[page.start + i].username@
                    &&& lines@[i].discriminator == board@[page.start + i].discriminator
                    &&& lines@[i].xp@ == separated_with_commas(board@[page.start + i].xp as int)
                },
        decreases page.end - place,
    {
        let member = &board[place];
        lines.push(
            LeaderboardLine {
                rank: place + 1,
                username: member.username.clone(),
                discriminator: member.discriminator,
                xp: with_commas(member.xp),
            },
        );
        place += 1;
    }
    lines
}

} // verus!
