use guild_xp::cache::Cache;
use guild_xp::types::{
    ChannelInfo, ChannelKind, ChannelUpdate, GuildUpdate, LevelRoles, MemberUpdate, RosterMember,
};
use guild_xp::xp::Multiplier;
use std::collections::HashSet;

fn ids(list: &[u64]) -> HashSet<u64> {
    list.iter().copied().collect()
}

fn voice(id: u64, guild_id: u64) -> ChannelInfo {
    ChannelInfo { id, guild_id: Some(guild_id), kind: ChannelKind::GuildVoice }
}

fn roster_member(user_id: u64, voice_channel_id: Option<u64>, xp: i64) -> RosterMember {
    RosterMember {
        avatar_url: format!("https://cdn.example/{user_id}.png"),
        bot: false,
        discriminator: 0,
        last_message_timestamp: None,
        role_ids: vec![7, 7, 8],
        user_id,
        username: format!("user{user_id}"),
        voice_channel_id,
        xp,
    }
}

fn add_member(cache: &mut Cache, guild_id: u64, user_id: u64, xp: i64) {
    cache.insert_member(
        String::from("avatar"),
        false,
        1234,
        guild_id,
        None,
        None,
        ids(&[1]),
        user_id,
        format!("user{user_id}"),
        None,
        xp,
    );
}

fn sample_levels() -> LevelRoles {
    vec![(1, ids(&[101])), (3, ids(&[102])), (5, ids(&[103]))]
}

fn sample_guild(cache: &mut Cache, guild_id: u64) {
    cache.insert_guild_at(
        vec![
            voice(10 * guild_id + 1, guild_id),
            ChannelInfo { id: 10 * guild_id + 2, guild_id: Some(guild_id), kind: ChannelKind::GuildText },
        ],
        guild_id,
        sample_levels(),
        vec![roster_member(1, None, 50), roster_member(2, Some(10 * guild_id + 1), 0)],
        format!("guild{guild_id}"),
        Multiplier::from_tenths(20).unwrap(),
        1_700_000_000,
    );
}

#[test]
fn new_cache_holds_nothing() {
    let cache = Cache::new();
    assert!(cache.get_guild(1).is_none());
    assert!(cache.get_channel(1).is_none());
    assert!(cache.get_member(1, 1).is_none());
    assert!(!cache.is_unavailable_guild(1));
}

#[test]
fn get_on_a_missing_key_is_empty() {
    let mut cache = Cache::new();
    sample_guild(&mut cache, 1);
    assert!(cache.get_guild(2).is_none());
    assert!(cache.get_member(1, 99).is_none());
    assert!(cache.get_member(2, 1).is_none());
    assert!(cache.get_channel(12).is_none());
}

#[test]
fn unavailable_guilds_are_marked_and_unmarked() {
    let mut cache = Cache::new();
    cache.insert_unavailable_guild(5);
    cache.insert_unavailable_guild(5);
    cache.insert_unavailable_guild(6);
    assert!(cache.is_unavailable_guild(5));
    assert!(cache.is_unavailable_guild(6));
    cache.remove_unavailable_guild(5);
    assert!(!cache.is_unavailable_guild(5));
    assert!(cache.is_unavailable_guild(6));
    cache.remove_unavailable_guild(7);
    assert!(cache.is_unavailable_guild(6));
}

#[test]
fn insert_channel_tracks_only_voice_channels_of_a_guild() {
    let mut cache = Cache::new();
    sample_guild(&mut cache, 1);
    cache.insert_channel(ChannelInfo { id: 20, guild_id: Some(1), kind: ChannelKind::GuildText });
    cache.insert_channel(ChannelInfo { id: 21, guild_id: Some(1), kind: ChannelKind::GuildCategory });
    cache.insert_channel(ChannelInfo { id: 22, guild_id: None, kind: ChannelKind::GuildVoice });
    assert!(cache.get_channel(20).is_none());
    assert!(cache.get_channel(21).is_none());
    assert!(cache.get_channel(22).is_none());
    assert!(!cache.get_guild(1).unwrap().channel_ids.contains(&20));
    cache.insert_channel(ChannelInfo { id: 23, guild_id: Some(1), kind: ChannelKind::GuildVoice });
    cache.insert_channel(ChannelInfo { id: 24, guild_id: Some(1), kind: ChannelKind::GuildStageVoice });
    let channel = cache.get_channel(23).unwrap();
    assert_eq!(channel.channel_id, 23);
    assert_eq!(channel.guild_id, 1);
    assert!(channel.user_ids.is_empty());
    assert!(cache.get_channel(24).is_some());
    let guild = cache.get_guild(1).unwrap();
    assert!(guild.channel_ids.contains(&23));
    assert!(guild.channel_ids.contains(&24));
}

#[test]
fn insert_channel_of_a_guild_that_is_not_held_is_tracked_alone() {
    let mut cache = Cache::new();
    cache.insert_channel(voice(30, 9));
    assert_eq!(cache.get_channel(30).unwrap().guild_id, 9);
    assert!(cache.get_guild(9).is_none());
}

#[test]
fn insert_channel_again_empties_the_channel() {
    let mut cache = Cache::new();
    sample_guild(&mut cache, 1);
    cache.update_channel(11, ChannelUpdate { user_ids: Some(ids(&[1, 2])) });
    assert_eq!(cache.get_channel(11).unwrap().user_ids, ids(&[1, 2]));
    cache.insert_channel(voice(11, 1));
    assert!(cache.get_channel(11).unwrap().user_ids.is_empty());
}

#[test]
fn remove_channel_updates_the_owning_guild() {
    let mut cache = Cache::new();
    sample_guild(&mut cache, 1);
    assert!(cache.get_guild(1).unwrap().channel_ids.contains(&11));
    cache.remove_channel(11);
    assert!(cache.get_channel(11).is_none());
    let guild = cache.get_guild(1).unwrap();
    assert!(!guild.channel_ids.contains(&11));
    assert!(!guild.channel_ids.contains(&12));
    assert_eq!(guild.member_ids, ids(&[1, 2]));
}

#[test]
fn remove_channel_that_is_not_held_changes_nothing() {
    let mut cache = Cache::new();
    sample_guild(&mut cache, 1);
    cache.remove_channel(12);
    assert_eq!(cache.get_guild(1).unwrap().channel_ids, ids(&[11]));
    cache.remove_channel(999);
    assert!(cache.get_channel(11).is_some());
}

#[test]
fn update_channel_replaces_the_occupants() {
    let mut cache = Cache::new();
    sample_guild(&mut cache, 1);
    cache.update_channel(11, ChannelUpdate { user_ids: Some(ids(&[4, 5])) });
    assert_eq!(cache.get_channel(11).unwrap().user_ids, ids(&[4, 5]));
    cache.update_channel(11, ChannelUpdate::default());
    assert_eq!(cache.get_channel(11).unwrap().user_ids, ids(&[4, 5]));
    cache.update_channel(77, ChannelUpdate { user_ids: Some(ids(&[4])) });
    assert!(cache.get_channel(77).is_none());
}

#[test]
fn insert_member_registers_the_member_in_its_guild() {
    let mut cache = Cache::new();
    sample_guild(&mut cache, 1);
    add_member(&mut cache, 1, 3, 10);
    let member = cache.get_member(1, 3).unwrap();
    assert_eq!(member.guild_id, 1);
    assert_eq!(member.user_id, 3);
    assert_eq!(member.xp, 10);
    assert_eq!(member.discriminator, 1234);
    assert_eq!(member.username, "user3");
    assert_eq!(member.role_ids, ids(&[1]));
    assert_eq!(cache.get_guild(1).unwrap().member_ids, ids(&[1, 2, 3]));
}

#[test]
fn insert_member_without_its_guild_is_held_alone() {
    let mut cache = Cache::new();
    add_member(&mut cache, 4, 3, 10);
    assert!(cache.get_member(4, 3).is_some());
    assert!(cache.get_guild(4).is_none());
}

#[test]
fn members_of_two_guilds_are_kept_apart() {
    let mut cache = Cache::new();
    add_member(&mut cache, 1, 2, 10);
    add_member(&mut cache, 2, 1, 20);
    assert_eq!(cache.get_member(1, 2).unwrap().xp, 10);
    assert_eq!(cache.get_member(2, 1).unwrap().xp, 20);
    assert!(cache.get_member(1, 1).is_none());
    assert!(cache.get_member(2, 2).is_none());
}

#[test]
fn remove_member_deregisters_the_member() {
    let mut cache = Cache::new();
    sample_guild(&mut cache, 1);
    cache.remove_member(1, 2);
    assert!(cache.get_member(1, 2).is_none());
    assert!(cache.get_member(1, 1).is_some());
    assert_eq!(cache.get_guild(1).unwrap().member_ids, ids(&[1]));
    cache.remove_member(1, 2);
    cache.remove_member(1, 42);
    assert_eq!(cache.get_guild(1).unwrap().member_ids, ids(&[1]));
}

#[test]
fn update_member_overrides_only_what_is_given() {
    let mut cache = Cache::new();
    sample_guild(&mut cache, 1);
    cache.update_member(
        1,
        1,
        MemberUpdate { xp: Some(75), last_message_timestamp: Some(Some(1_700_000_100)), ..Default::default() },
    );
    let member = cache.get_member(1, 1).unwrap();
    assert_eq!(member.xp, 75);
    assert_eq!(member.last_message_timestamp, Some(1_700_000_100));
    assert_eq!(member.username, "user1");
    assert_eq!(member.avatar_url, "https://cdn.example/1.png");
    assert_eq!(member.role_ids, ids(&[7, 8]));
    assert_eq!(member.joined_voice_timestamp, None);
    assert!(!member.bot);
    cache.update_member(
        1,
        1,
        MemberUpdate {
            avatar_url: Some(String::from("new")),
            discriminator: Some(42),
            joined_voice_timestamp: Some(Some(5)),
            last_message_timestamp: Some(None),
            role_ids: Some(ids(&[9])),
            username: Some(String::from("renamed")),
            voice_channel_id: Some(Some(11)),
            xp: None,
        },
    );
    let member = cache.get_member(1, 1).unwrap();
    assert_eq!(member.avatar_url, "new");
    assert_eq!(member.discriminator, 42);
    assert_eq!(member.joined_voice_timestamp, Some(5));
    assert_eq!(member.last_message_timestamp, None);
    assert_eq!(member.role_ids, ids(&[9]));
    assert_eq!(member.username, "renamed");
    assert_eq!(member.voice_channel_id, Some(11));
    assert_eq!(member.xp, 75);
    assert_eq!(member.guild_id, 1);
    assert_eq!(member.user_id, 1);
}

#[test]
fn update_member_that_is_not_held_is_dropped() {
    let mut cache = Cache::new();
    sample_guild(&mut cache, 1);
    cache.update_member(1, 9, MemberUpdate { xp: Some(75), ..Default::default() });
    assert!(cache.get_member(1, 9).is_none());
    assert_eq!(cache.get_guild(1).unwrap().member_ids, ids(&[1, 2]));
}

#[test]
fn snapshot_taken_before_an_update_keeps_its_values() {
    let mut cache = Cache::new();
    sample_guild(&mut cache, 1);
    let before = cache.get_member(1, 1).unwrap();
    let guild_before = cache.get_guild(1).unwrap();
    cache.update_member(
        1,
        1,
        MemberUpdate { xp: Some(9_000), role_ids: Some(ids(&[55])), ..Default::default() },
    );
    cache.update_guild(1, GuildUpdate { name: Some(String::from("renamed")), ..Default::default() });
    cache.remove_member(1, 2);
    assert_eq!(before.xp, 50);
    assert_eq!(before.role_ids, ids(&[7, 8]));
    assert_eq!(guild_before.name, "guild1");
    assert_eq!(guild_before.member_ids, ids(&[1, 2]));
    assert_eq!(cache.get_member(1, 1).unwrap().xp, 9_000);
    assert_eq!(cache.get_guild(1).unwrap().name, "renamed");
}

#[test]
fn two_reads_share_one_snapshot() {
    let mut cache = Cache::new();
    sample_guild(&mut cache, 1);
    let first = cache.get_member(1, 1).unwrap();
    let second = cache.get_member(1, 1).unwrap();
    assert!(std::sync::Arc::ptr_eq(&first, &second));
    assert_eq!(std::sync::Arc::strong_count(&first), 3);
}

#[test]
fn insert_guild_materializes_channels_members_and_configuration() {
    let mut cache = Cache::new();
    cache.insert_unavailable_guild(1);
    sample_guild(&mut cache, 1);
    assert!(!cache.is_unavailable_guild(1));
    let guild = cache.get_guild(1).unwrap();
    assert_eq!(guild.guild_id, 1);
    assert_eq!(guild.name, "guild1");
    assert_eq!(guild.channel_ids, ids(&[11]));
    assert_eq!(guild.member_ids, ids(&[1, 2]));
    assert_eq!(guild.levels, sample_levels());
    assert_eq!(guild.xp_multiplier.tenths(), 20);
    assert!(cache.get_channel(11).is_some());
    assert!(cache.get_channel(12).is_none());
    let idle = cache.get_member(1, 1).unwrap();
    assert_eq!(idle.joined_voice_timestamp, None);
    assert_eq!(idle.voice_channel_id, None);
    assert_eq!(idle.xp, 50);
    assert_eq!(idle.role_ids, ids(&[7, 8]));
    let talking = cache.get_member(1, 2).unwrap();
    assert_eq!(talking.joined_voice_timestamp, Some(1_700_000_000));
    assert_eq!(talking.voice_channel_id, Some(11));
}

#[test]
fn insert_guild_reads_the_clock_for_members_in_voice() {
    let before = std::time::SystemTime::now()
        .duration_since(std::time::UNIX_EPOCH)
        .unwrap()
        .as_secs() as i64;
    let mut cache = Cache::new();
    cache.insert_guild(
        vec![voice(11, 1)],
        1,
        Vec::new(),
        vec![roster_member(2, Some(11), 0)],
        String::from("guild"),
        Multiplier::default(),
    );
    let after = std::time::SystemTime::now()
        .duration_since(std::time::UNIX_EPOCH)
        .unwrap()
        .as_secs() as i64;
    let joined = cache.get_member(1, 2).unwrap().joined_voice_timestamp.unwrap();
    assert!(before <= joined && joined <= after);
}

#[test]
fn insert_guild_twice_gives_the_same_cache() {
    let mut cache = Cache::new();
    sample_guild(&mut cache, 1);
    cache.update_member(1, 1, MemberUpdate { xp: Some(75), ..Default::default() });
    sample_guild(&mut cache, 1);
    let guild = cache.get_guild(1).unwrap();
    assert_eq!(guild.channel_ids, ids(&[11]));
    assert_eq!(guild.member_ids, ids(&[1, 2]));
    assert_eq!(guild.levels, sample_levels());
    assert_eq!(cache.get_member(1, 1).unwrap().xp, 50);
}

#[test]
fn insert_guild_leaves_other_guilds_as_they_were() {
    let mut cache = Cache::new();
    sample_guild(&mut cache, 1);
    cache.update_guild(
        1,
        GuildUpdate { xp_multiplier: Some(Multiplier::from_tenths(35).unwrap()), ..Default::default() },
    );
    sample_guild(&mut cache, 2);
    let first = cache.get_guild(1).unwrap();
    assert_eq!(first.xp_multiplier.tenths(), 35);
    assert_eq!(first.levels, sample_levels());
    assert_eq!(first.member_ids, ids(&[1, 2]));
    assert_eq!(first.channel_ids, ids(&[11]));
    assert_eq!(cache.get_member(1, 1).unwrap().xp, 50);
    assert_eq!(cache.get_guild(2).unwrap().channel_ids, ids(&[21]));
}

#[test]
fn insert_member_again_keeps_the_guild_configuration() {
    let mut cache = Cache::new();
    sample_guild(&mut cache, 1);
    cache.update_guild(
        1,
        GuildUpdate { xp_multiplier: Some(Multiplier::from_tenths(35).unwrap()), ..Default::default() },
    );
    add_member(&mut cache, 1, 1, 500);
    add_member(&mut cache, 1, 1, 500);
    let guild = cache.get_guild(1).unwrap();
    assert_eq!(guild.xp_multiplier.tenths(), 35);
    assert_eq!(guild.levels, sample_levels());
    assert_eq!(guild.name, "guild1");
    assert_eq!(guild.member_ids, ids(&[1, 2]));
    assert_eq!(guild.channel_ids, ids(&[11]));
    assert_eq!(cache.get_member(1, 1).unwrap().xp, 500);
    assert_eq!(cache.get_member(1, 2).unwrap().voice_channel_id, Some(11));
}

#[test]
fn remove_guild_cascades_to_members_and_channels() {
    let mut cache = Cache::new();
    sample_guild(&mut cache, 1);
    sample_guild(&mut cache, 2);
    add_member(&mut cache, 1, 3, 0);
    cache.insert_channel(voice(15, 1));
    cache.remove_guild(1, false);
    assert!(cache.get_guild(1).is_none());
    assert!(cache.get_member(1, 1).is_none());
    assert!(cache.get_member(1, 2).is_none());
    assert!(cache.get_member(1, 3).is_none());
    assert!(cache.get_channel(11).is_none());
    assert!(cache.get_channel(15).is_none());
    assert!(!cache.is_unavailable_guild(1));
    assert!(cache.get_guild(2).is_some());
    assert!(cache.get_member(2, 1).is_some());
    assert!(cache.get_channel(21).is_some());
    assert_eq!(cache.get_guild(2).unwrap().member_ids, ids(&[1, 2]));
}

#[test]
fn remove_guild_marks_an_unavailable_guild() {
    let mut cache = Cache::new();
    sample_guild(&mut cache, 1);
    cache.remove_guild(1, true);
    assert!(cache.get_guild(1).is_none());
    assert!(cache.is_unavailable_guild(1));
    cache.remove_guild(3, true);
    assert!(cache.is_unavailable_guild(3));
    cache.remove_guild(4, false);
    assert!(!cache.is_unavailable_guild(4));
}

#[test]
fn remove_guild_forgets_what_the_guild_does_not_list() {
    let mut cache = Cache::new();
    add_member(&mut cache, 1, 9, 0);
    cache.insert_channel(voice(19, 1));
    sample_guild(&mut cache, 1);
    assert!(!cache.get_guild(1).unwrap().member_ids.contains(&9));
    assert!(!cache.get_guild(1).unwrap().channel_ids.contains(&19));
    cache.remove_guild(1, false);
    assert!(cache.get_member(1, 1).is_none());
    assert!(cache.get_member(1, 9).is_none());
    assert!(cache.get_channel(11).is_none());
    assert!(cache.get_channel(19).is_none());
}

#[test]
fn remove_guild_that_is_not_held_forgets_its_members_and_channels() {
    let mut cache = Cache::new();
    sample_guild(&mut cache, 2);
    add_member(&mut cache, 1, 9, 0);
    add_member(&mut cache, 1, 1, 0);
    cache.insert_channel(voice(19, 1));
    cache.remove_guild(1, false);
    assert!(cache.get_member(1, 9).is_none());
    assert!(cache.get_member(1, 1).is_none());
    assert!(cache.get_channel(19).is_none());
    assert!(cache.get_member(2, 1).is_some());
    assert!(cache.get_channel(21).is_some());
}

#[test]
fn remove_guild_leaves_what_another_guild_owns() {
    let mut cache = Cache::new();
    sample_guild(&mut cache, 1);
    sample_guild(&mut cache, 2);
    cache.update_guild(1, GuildUpdate { channel_ids: Some(ids(&[11, 21])), ..Default::default() });
    cache.update_guild(1, GuildUpdate { member_ids: Some(ids(&[1, 2, 77])), ..Default::default() });
    cache.remove_guild(1, false);
    assert!(cache.get_channel(11).is_none());
    assert_eq!(cache.get_channel(21).unwrap().guild_id, 2);
    let other = cache.get_guild(2).unwrap();
    assert_eq!(other.channel_ids, ids(&[21]));
    assert_eq!(other.member_ids, ids(&[1, 2]));
    assert_eq!(cache.get_member(2, 2).unwrap().voice_channel_id, Some(21));
}

#[test]
fn insert_guild_holds_each_voice_channel_as_its_own() {
    let mut cache = Cache::new();
    cache.insert_guild_at(
        vec![
            ChannelInfo { id: 5, guild_id: None, kind: ChannelKind::GuildVoice },
            ChannelInfo { id: 6, guild_id: Some(9), kind: ChannelKind::GuildStageVoice },
            ChannelInfo { id: 7, guild_id: Some(1), kind: ChannelKind::GuildText },
            ChannelInfo { id: 8, guild_id: Some(1), kind: ChannelKind::GuildCategory },
        ],
        1,
        Vec::new(),
        Vec::new(),
        String::from("guild"),
        Multiplier::default(),
        0,
    );
    assert_eq!(cache.get_guild(1).unwrap().channel_ids, ids(&[5, 6]));
    assert_eq!(cache.get_channel(5).unwrap().guild_id, 1);
    assert_eq!(cache.get_channel(6).unwrap().guild_id, 1);
    assert!(cache.get_channel(7).is_none());
    assert!(cache.get_channel(8).is_none());
    assert!(cache.get_guild(9).is_none());
}

#[test]
fn update_guild_overrides_only_what_is_given() {
    let mut cache = Cache::new();
    sample_guild(&mut cache, 1);
    cache.update_guild(1, GuildUpdate { name: Some(String::from("renamed")), ..Default::default() });
    let guild = cache.get_guild(1).unwrap();
    assert_eq!(guild.name, "renamed");
    assert_eq!(guild.levels, sample_levels());
    assert_eq!(guild.xp_multiplier.tenths(), 20);
    assert_eq!(guild.member_ids, ids(&[1, 2]));
    cache.update_guild(
        1,
        GuildUpdate {
            channel_ids: Some(ids(&[1])),
            levels: Some(vec![(2, ids(&[5]))]),
            member_ids: Some(ids(&[2])),
            name: None,
            xp_multiplier: Some(Multiplier::from_tenths(50).unwrap()),
        },
    );
    let guild = cache.get_guild(1).unwrap();
    assert_eq!(guild.name, "renamed");
    assert_eq!(guild.channel_ids, ids(&[1]));
    assert_eq!(guild.levels, vec![(2, ids(&[5]))]);
    assert_eq!(guild.member_ids, ids(&[2]));
    assert_eq!(guild.xp_multiplier.tenths(), 50);
    assert_eq!(guild.guild_id, 1);
}

#[test]
fn update_guild_that_is_not_held_is_dropped() {
    let mut cache = Cache::new();
    cache.update_guild(1, GuildUpdate { name: Some(String::from("renamed")), ..Default::default() });
    assert!(cache.get_guild(1).is_none());
}
