//! What the library takes from outside itself: the time of day, a random
//! number, the writing of a number with commas, the sorting of a list and
//! the sharing of a snapshot. Nothing is proved of these calls; each
//! contract says what is believed of them.

use crate::leaderboard::{rank_order, ranked};
use crate::roles::level_sorted;
use crate::text::separated_with_commas;
use crate::types::{level_roles_view, LevelRoles, Member};
use rand::rngs::StdRng;
use rand::{Rng, SeedableRng};
use std::sync::Arc;
use thousands::Separable;
use time::OffsetDateTime;
use vstd::prelude::*;

verus! {

/// No date that `time::OffsetDateTime` can hold is further from the Unix
/// epoch than this many seconds: its years end at 999,999 either way, and a
/// million years of 366 days are fewer seconds than this.
pub const CLOCK_LIMIT: i64 = 35_184_372_088_832;

/// `time::OffsetDateTime::now_utc`, read as whole seconds since the Unix
/// epoch by `OffsetDateTime::unix_timestamp`. The contract claims only that
/// the value is one that the type can hold: two calls may differ, and a
/// clock may go back.
#[verifier::external_body]
pub(crate) fn unix_now() -> (now: i64)
    ensures
        -CLOCK_LIMIT <= now <= CLOCK_LIMIT,
{
    OffsetDateTime::now_utc().unix_timestamp()
}

/// `rand::Rng::gen_range` over `low..=high`, on a `rand::rngs::StdRng` that
/// `SeedableRng::from_entropy` has seeded. The contract claims only that the
/// number lies in the range; the empty range, on which `gen_range` panics,
/// is left out.
#[verifier::external_body]
pub(crate) fn random_between(low: u64, high: u64) -> (number: u64)
    requires
        low <= high,
    ensures
        low <= number <= high,
{
    let mut rng: StdRng = SeedableRng::from_entropy();
    rng.gen_range(low..=high)
}

/// `thousands::Separable::separate_with_commas` on an integer. The
/// contract claims what the crate documents, a comma every three digits
/// from the right, of the digits that `to_string` gives: the sign, where
/// there is one, stays in front.
#[verifier::external_body]
pub(crate) fn separate_with_commas(number: i128) -> (text: String)
    ensures
        text@ == separated_with_commas(number as int),
{
    number.separate_with_commas()
}

/// `slice::sort_unstable_by` with `rank_order` as its comparison. The
/// contract claims what std documents of it for a comparison that is a
/// total order, which `lemma_rank_is_strict_order` shows `rank_order` to be:
/// the members are the same, each as often as before, and none stands
/// behind one that it ranks before. Which of two members that rank the same
/// comes first is left open.
#[verifier::external_body]
pub(crate) fn sort_by_rank(board: &mut Vec<Arc<Member>>)
    ensures
        final(board)@.to_multiset() == old(board)@.to_multiset(),
        ranked(final(board)@),
{
    board.sort_unstable_by(|a, b| rank_order(a, b));
}

/// `slice::sort_unstable_by_key` with an entry's level as its key. The
/// contract claims what std documents of it: the entries are the same,
/// each as often as before, and in the order of their levels. Which of two
/// entries of one level comes first is left open.
#[verifier::external_body]
pub(crate) fn sort_by_level(levels: &mut LevelRoles)
    ensures
        level_roles_view(final(levels)@).to_multiset() == level_roles_view(old(levels)@).to_multiset(),
        level_sorted(level_roles_view(final(levels)@)),
{
    levels.sort_unstable_by_key(|entry| entry.0);
}

/// `std::sync::Arc::clone`: another handle to the same snapshot. The
/// contract claims that what the new handle points to equals what the given
/// one points to.
#[verifier::external_body]
pub(crate) fn share<T>(handle: &Arc<T>) -> (shared: Arc<T>)
    ensures
        shared == *handle,
{
    Arc::clone(handle)
}

} // verus!
