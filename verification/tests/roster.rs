use guild_xp::roster::{
    build_roster, find_stored, find_voice_state, AnnouncedMember, AnnouncedVoiceState, StoredMember,
};

fn announced(user_id: u64) -> AnnouncedMember {
    AnnouncedMember {
        avatar_url: format!("avatar{user_id}"),
        bot: user_id == 3,
        discriminator: user_id as u16,
        role_ids: vec![user_id, 100],
        user_id,
        username: format!("user{user_id}"),
    }
}

#[test]
fn stored_row_is_the_first_for_the_member() {
    let stored = vec![
        StoredMember { user_id: 1, xp: 10, last_message_timestamp: None },
        StoredMember { user_id: 2, xp: 20, last_message_timestamp: Some(5) },
        StoredMember { user_id: 1, xp: 30, last_message_timestamp: Some(6) },
    ];
    assert_eq!(find_stored(&stored, 1), Some(stored[0]));
    assert_eq!(find_stored(&stored, 2), Some(stored[1]));
    assert_eq!(find_stored(&stored, 3), None);
    assert_eq!(find_stored(&Vec::new(), 3), None);
    let voice = vec![
        AnnouncedVoiceState { user_id: 2, channel_id: None },
        AnnouncedVoiceState { user_id: 2, channel_id: Some(11) },
    ];
    assert_eq!(find_voice_state(&voice, 2), Some(voice[0]));
    assert_eq!(find_voice_state(&voice, 1), None);
}

#[test]
fn roster_joins_what_is_announced_with_what_is_stored() {
    let members = vec![announced(1), announced(2), announced(3)];
    let stored = vec![
        StoredMember { user_id: 2, xp: 20, last_message_timestamp: Some(5) },
        StoredMember { user_id: 9, xp: 90, last_message_timestamp: Some(9) },
    ];
    let voice = vec![
        AnnouncedVoiceState { user_id: 3, channel_id: Some(11) },
        AnnouncedVoiceState { user_id: 2, channel_id: None },
    ];
    let roster = build_roster(&members, &stored, &voice);
    assert_eq!(roster.len(), 3);
    assert_eq!(roster[0].user_id, 1);
    assert_eq!(roster[0].xp, 0);
    assert_eq!(roster[0].last_message_timestamp, None);
    assert_eq!(roster[0].voice_channel_id, None);
    assert_eq!(roster[0].avatar_url, "avatar1");
    assert_eq!(roster[0].username, "user1");
    assert_eq!(roster[0].role_ids, vec![1, 100]);
    assert_eq!(roster[0].discriminator, 1);
    assert!(!roster[0].bot);
    assert_eq!(roster[1].xp, 20);
    assert_eq!(roster[1].last_message_timestamp, Some(5));
    assert_eq!(roster[1].voice_channel_id, None);
    assert_eq!(roster[2].xp, 0);
    assert_eq!(roster[2].voice_channel_id, Some(11));
    assert!(roster[2].bot);
    assert!(build_roster(&Vec::new(), &stored, &voice).is_empty());
}
