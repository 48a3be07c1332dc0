//! Level roles: which roles a level grants, which roles a member is owed,
//! and how a guild's level-role table is changed.

use crate::outside::sort_by_level;
use crate::sets::{copy_ids, extend_ids, lemma_ids_finite};
use crate::types::{copy_level_roles, level_roles_valid, level_roles_view, LevelRoles};
use std::collections::HashSet;
use vstd::prelude::*;

verus! {

broadcast use vstd::std_specs::hash::group_hash_axioms;

/// The roles that the first `count` entries of `levels` grant at `level`:
/// those of every entry whose level is at most `level`.
pub open spec fn granted_roles_within(levels: Seq<(u64, Set<u64>)>, level: int, count: int) -> Set<u64> {
    Set::new(
        |role: u64|
            exists|i: int|
                0 <= i < count && i < levels.len() && (#[trigger] levels[i]).0 <= level
                    && levels[i].1.contains(role),
    )
}

/// The roles that `levels` grants at `level`: those of every configured
/// level at or below it.
pub open spec fn granted_roles(levels: Seq<(u64, Set<u64>)>, level: int) -> Set<u64> {
    granted_roles_within(levels, level, levels.len() as int)
}

/// The roles that a member holding `current` is owed at `level`: its own
/// and those that `levels` grants at that level.
pub open spec fn synced_roles(current: Set<u64>, levels: Seq<(u64, Set<u64>)>, level: int) -> Set<u64> {
    current.union(granted_roles(levels, level))
}

/// The roles that `levels` grants at `level`.
pub fn level_role_ids(levels: &LevelRoles, level: u64) -> (granted: HashSet<u64>)
    ensures
        granted@ == granted_roles(level_roles_view(levels@), level as int),
{
    let ghost table = level_roles_view(levels@);
    let mut granted: HashSet<u64> = HashSet::new();
    let mut i: usize = 0;
    assert(granted@ =~= granted_roles_within(table, level as int, 0));
    while i < levels.len()
        invariant
            i <= levels.len(),
            table == level_roles_view(levels@),
            granted@ == granted_roles_within(table, level as int, i as int),
        decreases levels.len() - i,
    {
        let ghost before = granted@;
        if levels[i].0 <= level {
            extend_ids(&mut granted, &levels[i].1);
        }
        proof {
            let after = granted_roles_within(table, level as int, i + 1);
            assert forall|role: u64| granted@.contains(role) <==> after.contains(role) by {
                if before.contains(role) {
                    let j = choose|j: int|
                        0 <= j < i && j < table.len() && (#[trigger] table[j]).0 <= level
                            && table[j].1.contains(role);
                    assert(table[j].0 <= level && table[j].1.contains(role));
                }
                if table[i as int].0 <= level && table[i as int].1.contains(role) {
                    assert(after.contains(role));
                }
                if after.contains(role) {
                    let j = choose|j: int|
                        0 <= j < i + 1 && j < table.len() && (#[trigger] table[j]).0 <= level
                            && table[j].1.contains(role);
                    if j < i {
                        assert(before.contains(role));
                    }
                }
            }
            assert(granted@ =~= after);
        }
        i += 1;
    }
    granted
}

/// The roles that a member holding `current` is owed at `level`: its own
/// and those of every configured level at or below `level`.
pub fn synced_role_ids(current: &HashSet<u64>, levels: &LevelRoles, level: u64) -> (owed: HashSet<u64>)
    ensures
        owed@ == synced_roles(current@, level_roles_view(levels@), level as int),
{
    let mut owed = copy_ids(current);
    let granted = level_role_ids(levels, level);
    extend_ids(&mut owed, &granted);
    owed
}

/// Where `level` is first named in `levels`: the index of its first entry,
/// or the length of `levels` where it has none.
pub open spec fn level_position(levels: Seq<(u64, Set<u64>)>, level: u64) -> int {
    if exists|i: int| is_first_entry(levels, level, i) {
        choose|i: int| is_first_entry(levels, level, i)
    } else {
        levels.len() as int
    }
}

/// Whether the entry at `index` is the first of `levels` that names `level`.
pub open spec fn is_first_entry(levels: Seq<(u64, Set<u64>)>, level: u64, index: int) -> bool {
    &&& 0 <= index < levels.len()
    &&& levels[index].0 == level
    &&& forall|j: int| 0 <= j < index ==> (#[trigger] levels[j]).0 != level
}

/// The first entry of `levels` that names `level` is the only first one.
pub proof fn lemma_first_entry_unique(levels: Seq<(u64, Set<u64>)>, level: u64, index: int)
    requires
        is_first_entry(levels, level, index),
    ensures
        level_position(levels, level) == index,
{
    let found = choose|i: int| is_first_entry(levels, level, i);
    if found < index {
        assert(levels[found].0 != level);
    } else if index < found {
        assert(levels[index].0 != level);
    }
}

/// A level that no entry of `levels` names has its position at the end.
pub proof fn lemma_no_entry(levels: Seq<(u64, Set<u64>)>, level: u64)
    requires
        forall|j: int| 0 <= j < levels.len() ==> (#[trigger] levels[j]).0 != level,
    ensures
        level_position(levels, level) == levels.len(),
{
    if exists|i: int| is_first_entry(levels, level, i) {
        let found = choose|i: int| is_first_entry(levels, level, i);
        assert(levels[found].0 != level);
    }
}

/// What became of a request to grant a role at a level.
#[derive(Clone, Copy, Debug, PartialEq, Eq, Structural)]
pub enum LevelRoleAdded {
    /// The level now grants the role.
    Added,
    /// The level granted the role already: nothing changed.
    AlreadyGranted,
}

/// What became of a request to stop granting a role at a level.
#[derive(Clone, Copy, Debug, PartialEq, Eq, Structural)]
pub enum LevelRoleRemoved {
    /// The level grants nothing: nothing changed.
    LevelNotConfigured,
    /// The level does not grant the role: nothing changed.
    RoleNotGranted,
    /// The role was the last that the level granted: the level has left
    /// the table.
    LevelRemoved,
    /// The level no longer grants the role, and still grants others.
    RoleRemoved,
}

/// The table after `level` has been made to grant `role_id`: the first
/// entry that names the level gains the role; where there is none, an entry
/// that grants just that role is added at the end.
pub open spec fn spec_add_level_role(levels: Seq<(u64, Set<u64>)>, level: u64, role_id: u64) -> Seq<
    (u64, Set<u64>),
> {
    let position = level_position(levels, level);
    if position < levels.len() {
        levels.update(position, (level, levels[position].1.insert(role_id)))
    } else {
        levels.push((level, set![role_id]))
    }
}

/// What a request to grant `role_id` at `level` comes to.
pub open spec fn spec_level_role_added(levels: Seq<(u64, Set<u64>)>, level: u64, role_id: u64) -> LevelRoleAdded {
    let position = level_position(levels, level);
    if position < levels.len() && levels[position].1.contains(role_id) {
        LevelRoleAdded::AlreadyGranted
    } else {
        LevelRoleAdded::Added
    }
}

/// The entries of `levels` that do not name `level`, in order.
pub open spec fn without_level(levels: Seq<(u64, Set<u64>)>, level: u64) -> Seq<(u64, Set<u64>)>
    decreases levels.len(),
{
    if levels.len() == 0 {
        levels
    } else if levels.last().0 == level {
        without_level(levels.drop_last(), level)
    } else {
        without_level(levels.drop_last(), level).push(levels.last())
    }
}

/// What a request to stop granting `role_id` at `level` comes to.
pub open spec fn spec_level_role_removed(levels: Seq<(u64, Set<u64>)>, level: u64, role_id: u64) -> LevelRoleRemoved {
    let position = level_position(levels, level);
    if position >= levels.len() {
        LevelRoleRemoved::LevelNotConfigured
    } else if !levels[position].1.contains(role_id) {
        LevelRoleRemoved::RoleNotGranted
    } else if levels[position].1.len() == 1 {
        LevelRoleRemoved::LevelRemoved
    } else {
        LevelRoleRemoved::RoleRemoved
    }
}

/// The table after `level` has been made to grant `role_id` no longer.
/// Where the role was the last that the first entry naming the level
/// granted, every entry that names the level leaves the table; where the
/// entry grants other roles too, it loses the role; else nothing changes.
pub open spec fn spec_remove_level_role(levels: Seq<(u64, Set<u64>)>, level: u64, role_id: u64) -> Seq<
    (u64, Set<u64>),
> {
    let position = level_position(levels, level);
    match spec_level_role_removed(levels, level, role_id) {
        LevelRoleRemoved::LevelNotConfigured => levels,
        LevelRoleRemoved::RoleNotGranted => levels,
        LevelRoleRemoved::LevelRemoved => without_level(levels, level),
        LevelRoleRemoved::RoleRemoved => levels.update(
            position,
            (level, levels[position].1.remove(role_id)),
        ),
    }
}

/// The table after the role `role_id` has ceased to exist: no entry grants
/// it, and an entry that granted nothing else has left the table.
pub open spec fn spec_prune_role(levels: Seq<(u64, Set<u64>)>, role_id: u64) -> Seq<(u64, Set<u64>)>
    decreases levels.len(),
{
    if levels.len() == 0 {
        levels
    } else {
        let rest = spec_prune_role(levels.drop_last(), role_id);
        let entry = levels.last();
        if entry.1.remove(role_id).is_empty() {
            rest
        } else {
            rest.push((entry.0, entry.1.remove(role_id)))
        }
    }
}

/// The position of the first entry of `levels` that names `level`, or the
/// length of `levels` where none does.
pub fn find_level(levels: &LevelRoles, level: u64) -> (position: usize)
    ensures
        position == level_position(level_roles_view(levels@), level),
        position <= levels.len(),
{
    let ghost table = level_roles_view(levels@);
    let mut i: usize = 0;
    while i < levels.len()
        invariant
            i <= levels.len(),
            table == level_roles_view(levels@),
            forall|j: int| 0 <= j < i ==> (#[trigger] table[j]).0 != level,
        decreases levels.len() - i,
    {
        if levels[i].0 == level {
            proof {
                assert(table[i as int].0 == level);
                lemma_first_entry_unique(table, level, i as int);
            }
            return i;
        }
        i += 1;
    }
    proof {
        lemma_no_entry(table, level);
    }
    i
}

/// Makes `level` grant `role_id` in a copy of `levels`, which is handed
/// back with what the request came to.
pub fn add_level_role(levels: &LevelRoles, level: u64, role_id: u64) -> (result: (LevelRoles, LevelRoleAdded))
    ensures
        level_roles_view(result.0@) == spec_add_level_role(level_roles_view(levels@), level, role_id),
        result.1 == spec_level_role_added(level_roles_view(levels@), level, role_id),
        result.1 == LevelRoleAdded::AlreadyGranted ==> level_roles_view(result.0@) == level_roles_view(
            levels@,
        ),
        level_roles_valid(level_roles_view(levels@)) ==> level_roles_valid(level_roles_view(result.0@)),
{
    let ghost table = level_roles_view(levels@);
    let position = find_level(levels, level);
    let mut changed: LevelRoles = Vec::new();
    let mut outcome = LevelRoleAdded::Added;
    let mut i: usize = 0;
    while i < levels.len()
        invariant
            i <= levels.len(),
            position <= levels.len(),
            table == level_roles_view(levels@),
            changed@.len() == i,
            forall|j: int|
                0 <= j < i ==> (#[trigger] changed@[j]).0 == levels@[j].0 && changed@[j].1@ == (if j
                    == position {
                    levels@[j].1@.insert(role_id)
                } else {
                    levels@[j].1@
                }),
            outcome == (if position < i && table[position as int].1.contains(role_id) {
                LevelRoleAdded::AlreadyGranted
            } else {
                LevelRoleAdded::Added
            }),
        decreases levels.len() - i,
    {
        let mut role_ids = copy_ids(&levels[i].1);
        if i == position {
            let fresh = role_ids.insert(role_id);
            if !fresh {
                outcome = LevelRoleAdded::AlreadyGranted;
            }
            assert(table[i as int].1 == levels@[i as int].1@);
        }
        changed.push((levels[i].0, role_ids));
        i += 1;
    }
    if position == levels.len() {
        let mut role_ids: HashSet<u64> = HashSet::new();
        role_ids.insert(role_id);
        assert(role_ids@ =~= set![role_id]);
        changed.push((level, role_ids));
    }
    proof {
        let expected = spec_add_level_role(table, level, role_id);
        if position < levels.len() {
            assert(table[position as int].0 == level) by {
                if exists|i: int| is_first_entry(table, level, i) {
                } else {
                }
            }
        }
        assert(level_roles_view(changed@) =~= expected);
        if outcome == LevelRoleAdded::AlreadyGranted {
            assert(table[position as int].1.insert(role_id) =~= table[position as int].1);
            assert(expected =~= table);
        }
        if level_roles_valid(table) {
            lemma_add_level_role_keeps_valid(table, level, role_id);
        }
    }
    (changed, outcome)
}

/// Makes `level` grant `role_id` no longer in a copy of `levels`, which is
/// handed back with what the request came to.
pub fn remove_level_role(levels: &LevelRoles, level: u64, role_id: u64) -> (result: (
    LevelRoles,
    LevelRoleRemoved,
))
    ensures
        level_roles_view(result.0@) == spec_remove_level_role(level_roles_view(levels@), level, role_id),
        result.1 == spec_level_role_removed(level_roles_view(levels@), level, role_id),
        level_roles_valid(level_roles_view(levels@)) ==> level_roles_valid(level_roles_view(result.0@)),
{
    let ghost table = level_roles_view(levels@);
    let position = find_level(levels, level);
    let outcome = if position == levels.len() {
        LevelRoleRemoved::LevelNotConfigured
    } else if !levels[position].1.contains(&role_id) {
        LevelRoleRemoved::RoleNotGranted
    } else if levels[position].1.len() == 1 {
        LevelRoleRemoved::LevelRemoved
    } else {
        LevelRoleRemoved::RoleRemoved
    };
    proof {
        if position < levels.len() {
            assert(table[position as int].1 == levels@[position as int].1@);
        }
    }
    let mut changed: LevelRoles = Vec::new();
    let mut i: usize = 0;
    while i < levels.len()
        invariant
            i <= levels.len(),
            position <= levels.len(),
            table == level_roles_view(levels@),
            outcome == spec_level_role_removed(table, level, role_id),
            position == level_position(table, level),
            outcome == LevelRoleRemoved::LevelRemoved ==> level_roles_view(changed@) == without_level(
                table.take(i as int),
                level,
            ),
            outcome != LevelRoleRemoved::LevelRemoved ==> changed@.len() == i,
            outcome != LevelRoleRemoved::LevelRemoved ==> forall|j: int|
                0 <= j < i ==> (#[trigger] changed@[j]).0 == levels@[j].0 && changed@[j].1@ == (if j
                    == position && outcome == LevelRoleRemoved::RoleRemoved {
                    levels@[j].1@.remove(role_id)
                } else {
                    levels@[j].1@
                }),
        decreases levels.len() - i,
    {
        let ghost before = level_roles_view(changed@);
        let entry_level = levels[i].0;
        proof {
            assert(table.take(i + 1).drop_last() == table.take(i as int));
            assert(table.take(i + 1).last() == table[i as int]);
            assert(table[i as int].1 == levels@[i as int].1@);
            if position < levels.len() {
                assert(table[position as int].0 == level);
            }
        }
        match outcome {
            LevelRoleRemoved::LevelRemoved => {
                if entry_level != level {
                    changed.push((entry_level, copy_ids(&levels[i].1)));
                    assert(level_roles_view(changed@) =~= before.push(table[i as int]));
                } else {
                    assert(level_roles_view(changed@) =~= before);
                }
            },
            LevelRoleRemoved::RoleRemoved => {
                let mut role_ids = copy_ids(&levels[i].1);
                if i == position {
                    role_ids.remove(&role_id);
                }
                changed.push((entry_level, role_ids));
            },
            _ => {
                changed.push((entry_level, copy_ids(&levels[i].1)));
            },
        }
        i += 1;
    }
    proof {
        assert(table.take(levels.len() as int) == table);
        if position < levels.len() {
            assert(table[position as int].0 == level);
        }
        assert(level_roles_view(changed@) =~= spec_remove_level_role(table, level, role_id));
        if level_roles_valid(table) {
            lemma_remove_level_role_keeps_valid(table, level, role_id);
        }
    }
    (changed, outcome)
}

/// A copy of `levels` from which the role `role_id` is gone: no entry
/// grants it, and an entry that granted nothing else has left.
pub fn prune_role(levels: &LevelRoles, role_id: u64) -> (pruned: LevelRoles)
    ensures
        level_roles_view(pruned@) == spec_prune_role(level_roles_view(levels@), role_id),
        level_roles_valid(level_roles_view(levels@)) ==> level_roles_valid(level_roles_view(pruned@)),
        forall|i: int|
            0 <= i < pruned@.len() ==> !(#[trigger] pruned@[i]).1@.contains(role_id) && !pruned@[i].1@.is_empty(),
{
    let ghost table = level_roles_view(levels@);
    let mut pruned: LevelRoles = Vec::new();
    let mut i: usize = 0;
    assert(level_roles_view(pruned@) =~= spec_prune_role(table.take(0), role_id));
    while i < levels.len()
        invariant
            i <= levels.len(),
            table == level_roles_view(levels@),
            level_roles_view(pruned@) == spec_prune_role(table.take(i as int), role_id),
        decreases levels.len() - i,
    {
        let ghost before = level_roles_view(pruned@);
        proof {
            assert(table.take(i + 1).drop_last() == table.take(i as int));
            assert(table.take(i + 1).last() == table[i as int]);
            assert(table[i as int].1 == levels@[i as int].1@);
        }
        let mut role_ids = copy_ids(&levels[i].1);
        role_ids.remove(&role_id);
        if !role_ids.is_empty() {
            pruned.push((levels[i].0, role_ids));
            assert(level_roles_view(pruned@) =~= before.push(
                (table[i as int].0, table[i as int].1.remove(role_id)),
            ));
        } else {
            assert(level_roles_view(pruned@) =~= before);
        }
        i += 1;
    }
    assert(table.take(levels.len() as int) == table);
    proof {
        lemma_prune_role(table, role_id);
        assert forall|i: int| 0 <= i < pruned@.len() implies !(#[trigger] pruned@[i]).1@.contains(role_id)
            && !pruned@[i].1@.is_empty() by {
            assert(level_roles_view(pruned@)[i].1 == pruned@[i].1@);
        }
    }
    pruned
}

/// Whether `levels` is in the order of its levels: no entry stands behind
/// one of a higher level.
pub open spec fn level_sorted(levels: Seq<(u64, Set<u64>)>) -> bool {
    forall|i: int, j: int| 0 <= i < j < levels.len() ==> levels[i].0 <= levels[j].0
}

/// A copy of `levels` in the order of its levels.
pub fn sorted_level_roles(levels: &LevelRoles) -> (sorted: LevelRoles)
    ensures
        level_roles_view(sorted@).to_multiset() == level_roles_view(levels@).to_multiset(),
        level_sorted(level_roles_view(sorted@)),
        sorted@.len() == levels@.len(),
{
    let mut sorted = copy_level_roles(levels);
    sort_by_level(&mut sorted);
    proof {
        level_roles_view(sorted@).to_multiset_ensures();
        level_roles_view(levels@).to_multiset_ensures();
    }
    sorted
}

/// Whether the table `levels` is valid: `true` exactly where it names each
/// level at most once and grants at least one role at each level.
pub fn level_roles_are_valid(levels: &LevelRoles) -> (valid: bool)
    ensures
        valid == level_roles_valid(level_roles_view(levels@)),
{
    let ghost table = level_roles_view(levels@);
    let mut i: usize = 0;
    while i < levels.len()
        invariant
            i <= levels.len(),
            table == level_roles_view(levels@),
            forall|a: int, b: int| 0 <= a < b < i ==> (#[trigger] table[a]).0 != (#[trigger] table[b]).0,
            forall|a: int| 0 <= a < i ==> (#[trigger] table[a]).1.finite() && !table[a].1.is_empty(),
        decreases levels.len() - i,
    {
        proof {
            assert(table[i as int].1 == levels@[i as int].1@);
            lemma_ids_finite(&levels@[i as int].1);
        }
        if levels[i].1.is_empty() {
            return false;
        }
        let mut j: usize = 0;
        while j < i
            invariant
                j <= i < levels.len(),
                table == level_roles_view(levels@),
                forall|a: int| 0 <= a < j ==> (#[trigger] table[a]).0 != table[i as int].0,
            decreases i - j,
        {
            if levels[j].0 == levels[i].0 {
                assert(table[j as int].0 == table[i as int].0);
                return false;
            }
            j += 1;
        }
        i += 1;
    }
    true
}

proof fn lemma_named_level_has_first_entry(levels: Seq<(u64, Set<u64>)>, level: u64, index: int)
    requires
        0 <= index < levels.len(),
        levels[index].0 == level,
    ensures
        level_position(levels, level) <= index,
        is_first_entry(levels, level, level_position(levels, level)),
    decreases index,
{
    if forall|j: int| 0 <= j < index ==> (#[trigger] levels[j]).0 != level {
        lemma_first_entry_unique(levels, level, index);
    } else {
        let j = choose|j: int| 0 <= j < index && (#[trigger] levels[j]).0 == level;
        lemma_named_level_has_first_entry(levels, level, j);
    }
}

/// Where the position of a level lies within the table, the entry there is
/// the first that names the level; where it lies at the end, no entry
/// names the level.
pub proof fn lemma_level_position(levels: Seq<(u64, Set<u64>)>, level: u64)
    ensures
        0 <= level_position(levels, level) <= levels.len(),
        level_position(levels, level) < levels.len() ==> is_first_entry(
            levels,
            level,
            level_position(levels, level),
        ),
        level_position(levels, level) == levels.len() ==> forall|j: int|
            0 <= j < levels.len() ==> (#[trigger] levels[j]).0 != level,
{
    if level_position(levels, level) == levels.len() {
        assert forall|j: int| 0 <= j < levels.len() implies (#[trigger] levels[j]).0 != level by {
            if levels[j].0 == level {
                lemma_named_level_has_first_entry(levels, level, j);
            }
        }
    }
}

/// Granting a role at a level keeps a valid table valid.
pub proof fn lemma_add_level_role_keeps_valid(levels: Seq<(u64, Set<u64>)>, level: u64, role_id: u64)
    requires
        level_roles_valid(levels),
    ensures
        level_roles_valid(spec_add_level_role(levels, level, role_id)),
{
    lemma_level_position(levels, level);
    let changed = spec_add_level_role(levels, level, role_id);
    let position = level_position(levels, level);
    assert forall|i: int| 0 <= i < changed.len() implies (#[trigger] changed[i]).1.finite()
        && !changed[i].1.is_empty() by {
        if i == position {
            assert(changed[i].1.contains(role_id));
        } else {
            assert(changed[i] == levels[i]);
        }
    }
    assert forall|i: int, j: int| 0 <= i < j < changed.len() implies (#[trigger] changed[i]).0 != (
    #[trigger] changed[j]).0 by {
        if position < levels.len() {
            assert(changed[i].0 == levels[i].0 && changed[j].0 == levels[j].0);
        } else if j < levels.len() {
            assert(changed[i] == levels[i] && changed[j] == levels[j]);
        } else {
            assert(changed[i] == levels[i]);
        }
    }
}

proof fn lemma_without_level(levels: Seq<(u64, Set<u64>)>, level: u64)
    requires
        level_roles_valid(levels),
    ensures
        level_roles_valid(without_level(levels, level)),
        forall|i: int|
            0 <= i < without_level(levels, level).len() ==> levels.contains(
                #[trigger] without_level(levels, level)[i],
            ),
    decreases levels.len(),
{
    if levels.len() > 0 {
        let shorter = levels.drop_last();
        lemma_without_level(shorter, level);
        let rest = without_level(shorter, level);
        let kept = without_level(levels, level);
        assert forall|i: int| 0 <= i < kept.len() implies levels.contains(#[trigger] kept[i]) by {
            if i < rest.len() {
                assert(shorter.contains(rest[i]));
                let k = choose|k: int| 0 <= k < shorter.len() && shorter[k] == rest[i];
                assert(levels[k] == kept[i]);
            } else {
                assert(levels[levels.len() - 1] == kept[i]);
            }
        }
        if levels.last().0 != level {
            assert forall|i: int, j: int| 0 <= i < j < kept.len() implies (#[trigger] kept[i]).0 != (
            #[trigger] kept[j]).0 by {
                if j == rest.len() {
                    assert(shorter.contains(rest[i]));
                    let k = choose|k: int| 0 <= k < shorter.len() && shorter[k] == rest[i];
                    assert(levels[k].0 != levels[levels.len() - 1].0);
                } else {
                    assert(rest[i].0 != rest[j].0);
                }
            }
            assert forall|i: int| 0 <= i < kept.len() implies (#[trigger] kept[i]).1.finite()
                && !kept[i].1.is_empty() by {
                if i < rest.len() {
                    assert(kept[i] == rest[i]);
                } else {
                    assert(kept[i] == levels[levels.len() - 1]);
                }
            }
        }
    }
}

/// Ceasing to grant a role at a level keeps a valid table valid.
pub proof fn lemma_remove_level_role_keeps_valid(levels: Seq<(u64, Set<u64>)>, level: u64, role_id: u64)
    requires
        level_roles_valid(levels),
    ensures
        level_roles_valid(spec_remove_level_role(levels, level, role_id)),
{
    lemma_level_position(levels, level);
    lemma_without_level(levels, level);
    let changed = spec_remove_level_role(levels, level, role_id);
    let position = level_position(levels, level);
    if spec_level_role_removed(levels, level, role_id) == LevelRoleRemoved::RoleRemoved {
        let entry = levels[position];
        assert(entry.1.finite() && !entry.1.is_empty());
        assert(entry.1.remove(role_id).len() == entry.1.len() - 1);
        assert(entry.1.len() != 0) by {
            if entry.1.len() == 0 {
                assert(entry.1 =~= Set::empty());
            }
        }
        assert(!entry.1.remove(role_id).is_empty()) by {
            if entry.1.remove(role_id).is_empty() {
                assert(entry.1.remove(role_id).len() == 0);
            }
        }
        assert forall|i: int| 0 <= i < changed.len() implies (#[trigger] changed[i]).1.finite()
            && !changed[i].1.is_empty() by {
            if i != position {
                assert(changed[i] == levels[i]);
            }
        }
        assert forall|i: int, j: int| 0 <= i < j < changed.len() implies (#[trigger] changed[i]).0 != (
        #[trigger] changed[j]).0 by {
            assert(changed[i].0 == levels[i].0 && changed[j].0 == levels[j].0);
        }
    }
}

/// The table from which a role is gone no longer grants the role, names no
/// level that the table did not name, and is valid where the table was.
pub proof fn lemma_prune_role(levels: Seq<(u64, Set<u64>)>, role_id: u64)
    ensures
        forall|i: int|
            0 <= i < spec_prune_role(levels, role_id).len() ==> {
                &&& !(#[trigger] spec_prune_role(levels, role_id)[i]).1.contains(role_id)
                &&& !spec_prune_role(levels, role_id)[i].1.is_empty()
                &&& exists|k: int|
                    0 <= k < levels.len() && (#[trigger] levels[k]).0 == spec_prune_role(
                        levels,
                        role_id,
                    )[i].0 && levels[k].1.remove(role_id) == spec_prune_role(levels, role_id)[i].1
            },
        level_roles_valid(levels) ==> level_roles_valid(spec_prune_role(levels, role_id)),
    decreases levels.len(),
{
    if levels.len() > 0 {
        let shorter = levels.drop_last();
        lemma_prune_role(shorter, role_id);
        let rest = spec_prune_role(shorter, role_id);
        let pruned = spec_prune_role(levels, role_id);
        assert forall|i: int| 0 <= i < pruned.len() implies {
            &&& !(#[trigger] pruned[i]).1.contains(role_id)
            &&& !pruned[i].1.is_empty()
            &&& exists|k: int|
                0 <= k < levels.len() && (#[trigger] levels[k]).0 == pruned[i].0 && levels[k].1.remove(
                    role_id,
                ) == pruned[i].1
        } by {
            if i < rest.len() {
                assert(pruned[i] == rest[i]);
                let k = choose|k: int|
                    0 <= k < shorter.len() && (#[trigger] shorter[k]).0 == rest[i].0
                        && shorter[k].1.remove(role_id) == rest[i].1;
                assert(levels[k].0 == pruned[i].0 && levels[k].1.remove(role_id) == pruned[i].1);
            } else {
                let k = levels.len() - 1;
                assert(levels[k].0 == pruned[i].0 && levels[k].1.remove(role_id) == pruned[i].1);
            }
        }
        if level_roles_valid(levels) {
            assert(level_roles_valid(shorter)) by {
                assert forall|i: int, j: int| 0 <= i < j < shorter.len() implies (#[trigger] shorter[i]).0
                    != (#[trigger] shorter[j]).0 by {
                    assert(levels[i].0 != levels[j].0);
                }
                assert forall|i: int| 0 <= i < shorter.len() implies (#[trigger] shorter[i]).1.finite()
                    && !shorter[i].1.is_empty() by {
                    assert(shorter[i] == levels[i]);
                }
            }
            assert forall|i: int| 0 <= i < pruned.len() implies (#[trigger] pruned[i]).1.finite()
                && !pruned[i].1.is_empty() by {
                if i < rest.len() {
                    assert(pruned[i] == rest[i]);
                } else {
                    assert(levels[levels.len() - 1].1.finite());
                }
            }
            assert forall|i: int, j: int| 0 <= i < j < pruned.len() implies (#[trigger] pruned[i]).0 != (
            #[trigger] pruned[j]).0 by {
                if j < rest.len() {
                    assert(rest[i].0 != rest[j].0);
                } else {
                    let k = choose|k: int|
                        0 <= k < shorter.len() && (#[trigger] shorter[k]).0 == rest[i].0
                            && shorter[k].1.remove(role_id) == rest[i].1;
                    assert(levels[k].0 != levels[levels.len() - 1].0);
                }
            }
        }
    }
}

/// The valid table that `levels` stands for: its entries in order, without
/// those that grant nothing and without those that name a level which an
/// entry before them names.
pub open spec fn spec_valid_level_roles(levels: Seq<(u64, Set<u64>)>) -> Seq<(u64, Set<u64>)>
    decreases levels.len(),
{
    if levels.len() == 0 {
        levels
    } else {
        let rest = spec_valid_level_roles(levels.drop_last());
        let entry = levels.last();
        if !entry.1.finite() || entry.1.is_empty() || level_position(rest, entry.0) < rest.len() {
            rest
        } else {
            rest.push(entry)
        }
    }
}

/// The table that `levels` stands for is valid, and is `levels` itself
/// where that is valid.
pub proof fn lemma_valid_level_roles(levels: Seq<(u64, Set<u64>)>)
    ensures
        level_roles_valid(spec_valid_level_roles(levels)),
        level_roles_valid(levels) ==> spec_valid_level_roles(levels) == levels,
    decreases levels.len(),
{
    if levels.len() > 0 {
        let shorter = levels.drop_last();
        let rest = spec_valid_level_roles(shorter);
        let entry = levels.last();
        let kept = spec_valid_level_roles(levels);
        lemma_valid_level_roles(shorter);
        lemma_level_position(rest, entry.0);
        if kept != rest {
            assert forall|i: int, j: int| 0 <= i < j < kept.len() implies (#[trigger] kept[i]).0 != (
            #[trigger] kept[j]).0 by {
                if j < rest.len() {
                    assert(rest[i].0 != rest[j].0);
                } else {
                    assert(rest[i].0 != entry.0);
                }
            }
            assert forall|i: int| 0 <= i < kept.len() implies (#[trigger] kept[i]).1.finite()
                && !kept[i].1.is_empty() by {
                if i < rest.len() {
                    assert(kept[i] == rest[i]);
                }
            }
        }
        if level_roles_valid(levels) {
            assert(level_roles_valid(shorter)) by {
                assert forall|i: int, j: int| 0 <= i < j < shorter.len() implies (#[trigger] shorter[i]).0
                    != (#[trigger] shorter[j]).0 by {
                    assert(levels[i].0 != levels[j].0);
                }
                assert forall|i: int| 0 <= i < shorter.len() implies (#[trigger] shorter[i]).1.finite()
                    && !shorter[i].1.is_empty() by {
                    assert(shorter[i] == levels[i]);
                }
            }
            assert(rest == shorter);
            assert(levels[levels.len() - 1].1.finite() && !levels[levels.len() - 1].1.is_empty());
            assert forall|j: int| 0 <= j < shorter.len() implies (#[trigger] shorter[j]).0 != entry.0 by {
                assert(levels[j].0 != levels[levels.len() - 1].0);
            }
            lemma_no_entry(shorter, entry.0);
            assert(kept =~= levels);
        }
    }
}

/// A valid copy of `levels`: its entries in order, without those that
/// grant nothing and without those that name a level which an entry before
/// them names. A valid table is copied as it is.
pub fn valid_level_roles(levels: &LevelRoles) -> (valid: LevelRoles)
    ensures
        level_roles_view(valid@) == spec_valid_level_roles(level_roles_view(levels@)),
        level_roles_valid(level_roles_view(valid@)),
        level_roles_valid(level_roles_view(levels@)) ==> level_roles_view(valid@) == level_roles_view(levels@),
{
    let ghost table = level_roles_view(levels@);
    let mut valid: LevelRoles = Vec::new();
    let mut i: usize = 0;
    assert(level_roles_view(valid@) =~= spec_valid_level_roles(table.take(0)));
    while i < levels.len()
        invariant
            i <= levels.len(),
            table == level_roles_view(levels@),
            level_roles_view(valid@) == spec_valid_level_roles(table.take(i as int)),
        decreases levels.len() - i,
    {
        let ghost before = level_roles_view(valid@);
        proof {
            assert(table.take(i + 1).drop_last() == table.take(i as int));
            assert(table.take(i + 1).last() == table[i as int]);
            assert(table[i as int].1 == levels@[i as int].1@);
            lemma_ids_finite(&levels@[i as int].1);
        }
        if !levels[i].1.is_empty() && find_level(&valid, levels[i].0) == valid.len() {
            valid.push((levels[i].0, copy_ids(&levels[i].1)));
            assert(level_roles_view(valid@) =~= before.push(table[i as int]));
        } else {
            assert(level_roles_view(valid@) =~= before);
        }
        i += 1;
    }
    proof {
        assert(table.take(levels.len() as int) == table);
        lemma_valid_level_roles(table);
    }
    valid
}

} // verus!
