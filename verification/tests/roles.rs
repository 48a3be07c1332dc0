use guild_xp::roles::{
    add_level_role, find_level, level_role_ids, level_roles_are_valid, prune_role, remove_level_role, sorted_level_roles,
    synced_role_ids, valid_level_roles, LevelRoleAdded, LevelRoleRemoved,
};
use guild_xp::types::{copy_level_roles, LevelRoles};
use std::collections::HashSet;

fn set(list: &[u64]) -> HashSet<u64> {
    list.iter().copied().collect()
}

fn table() -> LevelRoles {
    vec![(5, set(&[103])), (1, set(&[101])), (3, set(&[102, 104]))]
}

#[test]
fn level_grants_the_roles_of_every_level_at_or_below_it() {
    assert_eq!(level_role_ids(&table(), 0), set(&[]));
    assert_eq!(level_role_ids(&table(), 1), set(&[101]));
    assert_eq!(level_role_ids(&table(), 2), set(&[101]));
    assert_eq!(level_role_ids(&table(), 3), set(&[101, 102, 104]));
    assert_eq!(level_role_ids(&table(), 4), set(&[101, 102, 104]));
    assert_eq!(level_role_ids(&table(), 100), set(&[101, 102, 103, 104]));
    assert_eq!(level_role_ids(&Vec::new(), 100), set(&[]));
}

#[test]
fn synced_roles_are_the_held_and_the_granted() {
    assert_eq!(synced_role_ids(&set(&[1, 101]), &table(), 3), set(&[1, 101, 102, 104]));
    assert_eq!(synced_role_ids(&set(&[103]), &table(), 1), set(&[101, 103]));
    assert_eq!(synced_role_ids(&set(&[]), &table(), 0), set(&[]));
}

#[test]
fn find_level_gives_the_first_entry_of_the_level() {
    assert_eq!(find_level(&table(), 5), 0);
    assert_eq!(find_level(&table(), 3), 2);
    assert_eq!(find_level(&table(), 2), 3);
    assert_eq!(find_level(&Vec::new(), 2), 0);
    let twice: LevelRoles = vec![(1, set(&[1])), (2, set(&[2])), (2, set(&[3]))];
    assert_eq!(find_level(&twice, 2), 1);
}

#[test]
fn add_level_role_to_a_new_level_appends_an_entry() {
    let (changed, outcome) = add_level_role(&table(), 7, 200);
    assert_eq!(outcome, LevelRoleAdded::Added);
    assert_eq!(
        changed,
        vec![(5, set(&[103])), (1, set(&[101])), (3, set(&[102, 104])), (7, set(&[200]))]
    );
    let (changed, outcome) = add_level_role(&Vec::new(), 7, 200);
    assert_eq!(outcome, LevelRoleAdded::Added);
    assert_eq!(changed, vec![(7, set(&[200]))]);
}

#[test]
fn add_level_role_to_a_configured_level_extends_its_roles() {
    let (changed, outcome) = add_level_role(&table(), 1, 200);
    assert_eq!(outcome, LevelRoleAdded::Added);
    assert_eq!(changed, vec![(5, set(&[103])), (1, set(&[101, 200])), (3, set(&[102, 104]))]);
}

#[test]
fn add_level_role_that_is_granted_changes_nothing() {
    let (changed, outcome) = add_level_role(&table(), 3, 104);
    assert_eq!(outcome, LevelRoleAdded::AlreadyGranted);
    assert_eq!(changed, table());
}

#[test]
fn remove_level_role_reports_what_it_did_not_find() {
    let (changed, outcome) = remove_level_role(&table(), 2, 101);
    assert_eq!(outcome, LevelRoleRemoved::LevelNotConfigured);
    assert_eq!(changed, table());
    let (changed, outcome) = remove_level_role(&table(), 1, 102);
    assert_eq!(outcome, LevelRoleRemoved::RoleNotGranted);
    assert_eq!(changed, table());
}

#[test]
fn remove_level_role_of_a_level_with_one_role_removes_the_level() {
    let (changed, outcome) = remove_level_role(&table(), 1, 101);
    assert_eq!(outcome, LevelRoleRemoved::LevelRemoved);
    assert_eq!(changed, vec![(5, set(&[103])), (3, set(&[102, 104]))]);
    let (changed, outcome) = remove_level_role(&table(), 5, 103);
    assert_eq!(outcome, LevelRoleRemoved::LevelRemoved);
    assert_eq!(changed, vec![(1, set(&[101])), (3, set(&[102, 104]))]);
}

#[test]
fn remove_level_role_of_a_level_with_more_roles_keeps_the_level() {
    let (changed, outcome) = remove_level_role(&table(), 3, 102);
    assert_eq!(outcome, LevelRoleRemoved::RoleRemoved);
    assert_eq!(changed, vec![(5, set(&[103])), (1, set(&[101])), (3, set(&[104]))]);
}

#[test]
fn prune_role_drops_the_role_and_the_levels_it_empties() {
    let levels: LevelRoles =
        vec![(1, set(&[101])), (2, set(&[101, 102])), (3, set(&[103])), (4, set(&[101]))];
    assert_eq!(prune_role(&levels, 101), vec![(2, set(&[102])), (3, set(&[103]))]);
    assert_eq!(prune_role(&levels, 999), levels);
    assert_eq!(prune_role(&Vec::new(), 101), Vec::new());
}

#[test]
fn sorted_level_roles_are_in_the_order_of_their_levels() {
    assert_eq!(
        sorted_level_roles(&table()),
        vec![(1, set(&[101])), (3, set(&[102, 104])), (5, set(&[103]))]
    );
    assert_eq!(sorted_level_roles(&Vec::new()), Vec::new());
}

#[test]
fn copied_level_roles_equal_their_source() {
    assert_eq!(copy_level_roles(&table()), table());
}

#[test]
fn valid_tables_name_each_level_once_and_grant_something() {
    assert!(level_roles_are_valid(&table()));
    assert!(level_roles_are_valid(&Vec::new()));
    assert!(!level_roles_are_valid(&vec![(1, set(&[1])), (2, set(&[2])), (1, set(&[3]))]));
    assert!(!level_roles_are_valid(&vec![(1, set(&[1])), (2, set(&[]))]));
    assert!(level_roles_are_valid(&add_level_role(&table(), 3, 9).0));
    assert!(level_roles_are_valid(&remove_level_role(&table(), 1, 101).0));
    assert!(level_roles_are_valid(&prune_role(&table(), 102)));
}

#[test]
fn any_table_is_made_valid_by_dropping_what_breaks_it() {
    let broken: LevelRoles =
        vec![(1, set(&[1])), (2, set(&[])), (1, set(&[3])), (3, set(&[4, 5])), (2, set(&[6]))];
    assert!(!level_roles_are_valid(&broken));
    let valid = valid_level_roles(&broken);
    assert_eq!(valid, vec![(1, set(&[1])), (3, set(&[4, 5])), (2, set(&[6]))]);
    assert!(level_roles_are_valid(&valid));
    assert_eq!(valid_level_roles(&table()), table());
    assert_eq!(valid_level_roles(&Vec::new()), Vec::new());
}
