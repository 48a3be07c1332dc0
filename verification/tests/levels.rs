use guild_xp::levels::{
    level_for, level_progress, level_table, xp_floor, LevelProgress, LevelThreshold, MAX_LEVEL,
};

#[test]
fn first_floors_of_the_table() {
    assert_eq!(xp_floor(1), 0);
    assert_eq!(xp_floor(2), 4);
    assert_eq!(xp_floor(3), 13);
    assert_eq!(xp_floor(4), 32);
    assert_eq!(xp_floor(5), 65);
    assert_eq!(xp_floor(15), 1_957);
    assert_eq!(xp_floor(36), 46_656);
    assert_eq!(xp_floor(100), 1_640_000);
}

#[test]
fn level_never_falls_as_experience_grows() {
    let mut last = level_for(-10);
    let mut xp: i64 = -10;
    while xp < 1_700_000 {
        let level = level_for(xp);
        assert!(level >= last);
        last = level;
        xp += 97;
    }
}

#[test]
fn level_steps_up_at_every_boundary() {
    let mut level = 2;
    while level <= MAX_LEVEL {
        let floor = xp_floor(level);
        assert_eq!(level_for(floor - 1), level - 1);
        assert_eq!(level_for(floor), level);
        level += 1;
    }
}

#[test]
fn huge_experience_is_the_last_level() {
    assert_eq!(level_for(1_640_000), 100);
    assert_eq!(level_for(i64::MAX), 100);
}

#[test]
fn experience_below_every_floor_is_the_first_level() {
    assert_eq!(level_for(0), 1);
    assert_eq!(level_for(3), 1);
    assert_eq!(level_for(-5), 1);
    assert_eq!(level_for(i64::MIN), 1);
}

#[test]
fn progress_within_a_level() {
    assert_eq!(level_progress(40), Some(LevelProgress { level: 4, gained: 8, needed: 33 }));
    assert_eq!(level_progress(0), Some(LevelProgress { level: 1, gained: 0, needed: 4 }));
    assert_eq!(level_progress(1_639_999).map(|p| p.level), Some(99));
    assert_eq!(level_progress(1_640_000), None);
}

#[test]
fn level_table_lists_every_level_with_its_floor() {
    let table = level_table();
    assert_eq!(table.len(), 100);
    assert_eq!(table[0], LevelThreshold { level: 1, floor: 0, to_next: 4 });
    assert_eq!(table[1], LevelThreshold { level: 2, floor: 4, to_next: 9 });
    assert_eq!(table[3], LevelThreshold { level: 4, floor: 32, to_next: 33 });
    assert_eq!(table[98].level, 99);
    assert_eq!(table[98].floor + table[98].to_next, 1_640_000);
    assert_eq!(table[99], LevelThreshold { level: 100, floor: 1_640_000, to_next: 0 });
    for pair in table.windows(2) {
        assert!(pair[0].floor < pair[1].floor);
        assert_eq!(pair[0].floor + pair[0].to_next, pair[1].floor);
        assert_eq!(pair[0].level + 1, pair[1].level);
    }
    for entry in table.iter() {
        assert_eq!(level_for(entry.floor), entry.level);
        assert_eq!(xp_floor(entry.level), entry.floor);
    }
}
