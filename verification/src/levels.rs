//! The level table: which accumulated experience amounts to which level.
//!
//! The table is fixed. Level `n` is reached at `cumulative_xp(n)` experience
//! points, a curve that grows roughly with the cube of the level, and level
//! `MAX_LEVEL` is the last one: no amount of experience leads beyond it.

use vstd::prelude::*;

verus! {

/// The last level of the table.
pub const MAX_LEVEL: u64 = 100;

/// The multiplier that the curve applies to the cube of a level.
pub open spec fn curve_factor(level: int) -> int {
    if level < 15 {
        (level + 1) / 3 + 24
    } else if level < 36 {
        level + 14
    } else {
        level / 2 + 32
    }
}

/// The experience at which `level` begins: the table's cumulative floor.
pub open spec fn cumulative_xp(level: int) -> int {
    level * level * level * curve_factor(level) / 50
}

/// The experience that separates `level` from the next one.
pub open spec fn xp_to_next_level(level: int) -> int {
    cumulative_xp(level + 1) - cumulative_xp(level)
}

/// The highest level at or below `level` whose floor is at most `xp`; the
/// first level where there is none.
pub open spec fn highest_level_from(xp: int, level: int) -> int
    decreases level,
{
    if level <= 1 {
        1
    } else if cumulative_xp(level) <= xp {
        level
    } else {
        highest_level_from(xp, level - 1)
    }
}

/// The level that `xp` experience points amount to.
pub open spec fn spec_level_for(xp: int) -> int {
    highest_level_from(xp, MAX_LEVEL as int)
}

/// What holds of exactly one level for each amount of experience: its floor
/// has been reached, unless it is the first, and the next floor has not,
/// unless it is the last.
pub open spec fn is_level_of(xp: int, level: int) -> bool {
    &&& 1 <= level <= MAX_LEVEL
    &&& level > 1 ==> cumulative_xp(level) <= xp
    &&& level < MAX_LEVEL ==> xp < cumulative_xp(level + 1)
}

proof fn lemma_cube_step(n: int)
    requires
        n >= 1,
    ensures
        (n + 1) * (n + 1) * (n + 1) >= n * n * n + 7,
        n * n * n >= 1,
{
    assert((n + 1) * (n + 1) * (n + 1) >= n * n * n + 7) by (nonlinear_arith)
        requires
            n >= 1,
    ;
    assert(n * n * n >= 1) by (nonlinear_arith)
        requires
            n >= 1,
    ;
}

proof fn lemma_scaled_step(c0: int, c1: int, f0: int, f1: int)
    requires
        c0 >= 1,
        c1 >= c0 + 7,
        f0 >= 24,
        f1 >= f0,
    ensures
        c1 * f1 >= c0 * f0 + 50,
{
    assert(c1 * f1 >= c0 * f0 + 50) by (nonlinear_arith)
        requires
            c0 >= 1,
            c1 >= c0 + 7,
            f0 >= 24,
            f1 >= f0,
    ;
}

/// Each level of the table begins strictly later than the one before it.
pub proof fn lemma_floors_increase(level: int)
    requires
        1 <= level,
    ensures
        cumulative_xp(level) < cumulative_xp(level + 1),
        cumulative_xp(level) >= 0,
{
    let c0 = level * level * level;
    let c1 = (level + 1) * (level + 1) * (level + 1);
    lemma_cube_step(level);
    lemma_scaled_step(c0, c1, curve_factor(level), curve_factor(level + 1));
    assert(c0 * curve_factor(level) >= 0) by (nonlinear_arith)
        requires
            c0 >= 1,
            curve_factor(level) >= 24,
    ;
}

/// A level that begins later is a higher level: the floors are ordered as
/// the levels are.
pub proof fn lemma_floors_ordered(low: int, high: int)
    requires
        1 <= low <= high,
    ensures
        cumulative_xp(low) <= cumulative_xp(high),
        low < high ==> cumulative_xp(low) < cumulative_xp(high),
    decreases high - low,
{
    if low < high {
        lemma_floors_ordered(low, high - 1);
        lemma_floors_increase(high - 1);
    }
}

proof fn lemma_highest_level_from(xp: int, level: int)
    requires
        1 <= level,
    ensures
        1 <= highest_level_from(xp, level) <= level,
        highest_level_from(xp, level) > 1 ==> cumulative_xp(highest_level_from(xp, level)) <= xp,
        forall|l: int|
            highest_level_from(xp, level) < l <= level ==> xp < #[trigger] cumulative_xp(l),
    decreases level,
{
    if level > 1 && cumulative_xp(level) > xp {
        lemma_highest_level_from(xp, level - 1);
    }
}

/// The level of an amount of experience is the one level that `is_level_of`
/// describes.
pub proof fn lemma_level_is_unique(xp: int, level: int)
    ensures
        is_level_of(xp, spec_level_for(xp)),
        is_level_of(xp, level) ==> level == spec_level_for(xp),
{
    let found = spec_level_for(xp);
    lemma_highest_level_from(xp, MAX_LEVEL as int);
    if found < MAX_LEVEL {
        assert(xp < cumulative_xp(found + 1));
    }
    if is_level_of(xp, level) {
        if level < found {
            lemma_floors_ordered(level + 1, found);
        } else if found < level {
            lemma_floors_ordered(found + 1, level);
        }
    }
}

/// The level never falls as experience grows.
pub proof fn lemma_level_monotonic(low_xp: int, high_xp: int)
    requires
        low_xp <= high_xp,
    ensures
        spec_level_for(low_xp) <= spec_level_for(high_xp),
{
    let low = spec_level_for(low_xp);
    let high = spec_level_for(high_xp);
    lemma_level_is_unique(low_xp, low);
    lemma_level_is_unique(high_xp, high);
    if high < low {
        lemma_floors_ordered(high + 1, low);
    }
}

/// At every boundary of the table the level steps up: one point below the
/// floor of `level` is still the level before it.
pub proof fn lemma_level_steps_at_boundary(level: int)
    requires
        2 <= level <= MAX_LEVEL,
    ensures
        spec_level_for(cumulative_xp(level) - 1) == level - 1,
        spec_level_for(cumulative_xp(level)) == level,
        spec_level_for(cumulative_xp(level) - 1) < spec_level_for(cumulative_xp(level)),
{
    lemma_floors_increase(level - 1);
    lemma_floors_increase(level);
    lemma_level_is_unique(cumulative_xp(level) - 1, level - 1);
    lemma_level_is_unique(cumulative_xp(level), level);
}

/// The last level is terminal: from its floor on, every amount of
/// experience is that level.
pub proof fn lemma_level_terminal(xp: int)
    requires
        xp >= cumulative_xp(MAX_LEVEL as int),
    ensures
        spec_level_for(xp) == MAX_LEVEL,
{
    lemma_level_is_unique(xp, MAX_LEVEL as int);
}

/// The experience at which `level` begins.
pub fn xp_floor(level: u64) -> (floor: i64)
    requires
        1 <= level <= MAX_LEVEL,
    ensures
        floor == cumulative_xp(level as int),
        0 <= floor <= 1_640_000,
{
    let factor: u64 = if level < 15 {
        (level + 1) / 3 + 24
    } else if level < 36 {
        level + 14
    } else {
        level / 2 + 32
    };
    assert(factor == curve_factor(level as int));
    assert(factor <= 82);
    assert(level * level * level <= 1_000_000 && level * level <= 10_000) by (nonlinear_arith)
        requires
            1 <= level <= 100,
    ;
    let cube: u64 = level * level * level;
    assert(cube * factor <= 82_000_000) by (nonlinear_arith)
        requires
            cube <= 1_000_000,
            factor <= 82,
    ;
    let floor: u64 = cube * factor / 50;
    proof {
        lemma_floors_ordered(level as int, MAX_LEVEL as int);
        assert(cumulative_xp(MAX_LEVEL as int) == 1_640_000) by {
            assert(100 * 100 * 100 * 82 / 50 == 1_640_000int);
        }
        lemma_floors_increase(level as int);
    }
    floor as i64
}

/// The level that `xp` experience points amount to: the last level whose
/// floor `xp` has reached, the first level below every floor, and
/// `MAX_LEVEL` from the last floor on.
pub fn level_for(xp: i64) -> (level: u64)
    ensures
        level == spec_level_for(xp as int),
        is_level_of(xp as int, level as int),
{
    let mut next: u64 = 2;
    while next <= MAX_LEVEL
        invariant
            2 <= next <= MAX_LEVEL + 1,
            forall|l: int| 2 <= l < next ==> #[trigger] cumulative_xp(l) <= xp,
        decreases MAX_LEVEL + 1 - next,
    {
        if xp < xp_floor(next) {
            proof {
                lemma_level_is_unique(xp as int, next as int - 1);
            }
            return next - 1;
        }
        next += 1;
    }
    proof {
        lemma_level_is_unique(xp as int, MAX_LEVEL as int);
    }
    MAX_LEVEL
}

/// An entry of the level table: a level, the experience at which it begins,
/// and the experience that separates it from the next level, which is zero
/// for the last level.
#[derive(Clone, Copy, Debug, PartialEq, Eq, Structural)]
pub struct LevelThreshold {
    pub level: u64,
    pub floor: i64,
    pub to_next: i64,
}

/// The entry of the level table for `level`.
pub open spec fn spec_threshold(level: int) -> LevelThreshold {
    LevelThreshold {
        level: level as u64,
        floor: cumulative_xp(level) as i64,
        to_next: if level < MAX_LEVEL {
            xp_to_next_level(level) as i64
        } else {
            0
        },
    }
}

/// The level table: one entry for each level from the first to the last,
/// in order, each beginning strictly later than the one before it.
pub fn level_table() -> (table: Vec<LevelThreshold>)
    ensures
        table@.len() == MAX_LEVEL,
        forall|i: int| 0 <= i < table@.len() ==> #[trigger] table@[i] == spec_threshold(i + 1),
        forall|i: int, j: int| 0 <= i < j < table@.len() ==> table@[i].floor < table@[j].floor,
{
    let mut table: Vec<LevelThreshold> = Vec::new();
    let mut level: u64 = 1;
    while level <= MAX_LEVEL
        invariant
            1 <= level <= MAX_LEVEL + 1,
            table@.len() == level - 1,
            forall|i: int| 0 <= i < table@.len() ==> #[trigger] table@[i] == spec_threshold(i + 1),
        decreases MAX_LEVEL + 1 - level,
    {
        let floor = xp_floor(level);
        let to_next = if level < MAX_LEVEL {
            xp_floor(level + 1) - floor
        } else {
            0
        };
        table.push(LevelThreshold { level, floor, to_next });
        level += 1;
    }
    proof {
        assert forall|i: int, j: int| 0 <= i < j < table@.len() implies table@[i].floor < table@[j].floor by {
            lemma_floors_ordered(i + 1, j + 1);
            lemma_floors_ordered(i + 1, MAX_LEVEL as int);
            lemma_floors_ordered(j + 1, MAX_LEVEL as int);
            lemma_floors_increase(i + 1);
            lemma_floors_increase(j + 1);
            assert(cumulative_xp(MAX_LEVEL as int) == 1_640_000) by {
                assert(100 * 100 * 100 * 82 / 50 == 1_640_000int);
            }
            assert(table@[i] == spec_threshold(i + 1));
            assert(table@[j] == spec_threshold(j + 1));
        }
    }
    table
}

/// How far into its level an amount of experience is.
#[derive(Clone, Copy, Debug, PartialEq, Eq, Structural)]
pub struct LevelProgress {
    /// The level that the experience amounts to.
    pub level: u64,
    /// The experience gathered since that level began.
    pub gained: i64,
    /// The experience that separates that level from the next.
    pub needed: i64,
}

/// The progress of `xp` within its level, or `None` at the last level,
/// where there is no next level to progress towards.
pub fn level_progress(xp: i64) -> (progress: Option<LevelProgress>)
    requires
        xp >= i64::MIN + 1_640_000,
    ensures
        spec_level_for(xp as int) == MAX_LEVEL <==> progress is None,
        progress matches Some(p) ==> {
            &&& p.level == spec_level_for(xp as int)
            &&& p.gained == xp - cumulative_xp(p.level as int)
            &&& p.needed == xp_to_next_level(p.level as int)
            &&& p.needed > 0
            &&& p.gained < p.needed
        },
{
    let level = level_for(xp);
    if level == MAX_LEVEL {
        None
    } else {
        let floor = xp_floor(level);
        let next_floor = xp_floor(level + 1);
        proof {
            lemma_floors_increase(level as int);
        }
        Some(LevelProgress { level, gained: xp - floor, needed: next_floor - floor })
    }
}

} // verus!
