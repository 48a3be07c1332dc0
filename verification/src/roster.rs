//! The roster of a guild as it is first observed: what the platform
//! announces of each member, joined with what storage holds of it and with
//! where in voice it is.

use crate::types::{RosterMember, RosterMemberView};
use vstd::prelude::*;

verus! {

/// A member as the platform announces it with its guild.
pub struct AnnouncedMember {
    pub avatar_url: String,
    pub bot: bool,
    pub discriminator: u16,
    pub role_ids: Vec<u64>,
    pub user_id: u64,
    pub username: String,
}

/// What storage holds of a member. `last_message_timestamp` is in
/// milliseconds.
#[derive(Clone, Copy, Debug, PartialEq, Eq, Structural)]
pub struct StoredMember {
    pub user_id: u64,
    pub xp: i64,
    pub last_message_timestamp: Option<i64>,
}

/// Where in voice the platform announces a member to be.
#[derive(Clone, Copy, Debug, PartialEq, Eq, Structural)]
pub struct AnnouncedVoiceState {
    pub user_id: u64,
    pub channel_id: Option<u64>,
}

/// The first row for `user_id` among those of `stored` from the place
/// `from` on.
pub open spec fn stored_from(stored: Seq<StoredMember>, user_id: u64, from: int) -> Option<StoredMember>
    decreases stored.len() - from,
{
    if from < 0 || from >= stored.len() {
        None
    } else if stored[from].user_id == user_id {
        Some(stored[from])
    } else {
        stored_from(stored, user_id, from + 1)
    }
}

/// The first voice state of `user_id` among `voice_states` from the place
/// `from` on.
pub open spec fn voice_state_from(voice_states: Seq<AnnouncedVoiceState>, user_id: u64, from: int) -> Option<
    AnnouncedVoiceState,
>
    decreases voice_states.len() - from,
{
    if from < 0 || from >= voice_states.len() {
        None
    } else if voice_states[from].user_id == user_id {
        Some(voice_states[from])
    } else {
        voice_state_from(voice_states, user_id, from + 1)
    }
}

/// The roster entry of an announced member: what was announced of it, the
/// experience and the last earning message of the first row that storage
/// holds for it, none where it holds no row, and the channel of the first
/// voice state announced for it.
pub open spec fn roster_entry(
    avatar_url: Seq<char>,
    bot: bool,
    discriminator: u16,
    role_ids: Seq<u64>,
    user_id: u64,
    username: Seq<char>,
    stored: Seq<StoredMember>,
    voice_states: Seq<AnnouncedVoiceState>,
) -> RosterMemberView {
    let row = stored_from(stored, user_id, 0);
    let voice_state = voice_state_from(voice_states, user_id, 0);
    RosterMemberView {
        avatar_url,
        bot,
        discriminator,
        last_message_timestamp: match row {
            Some(row) => row.last_message_timestamp,
            None => None,
        },
        role_ids,
        user_id,
        username,
        voice_channel_id: match voice_state {
            Some(voice_state) => voice_state.channel_id,
            None => None,
        },
        xp: match row {
            Some(row) => row.xp,
            None => 0,
        },
    }
}

/// The first row that `stored` holds for `user_id`.
pub fn find_stored(stored: &Vec<StoredMember>, user_id: u64) -> (row: Option<StoredMember>)
    ensures
        row == stored_from(stored@, user_id, 0),
{
    let mut i: usize = 0;
    while i < stored.len()
        invariant
            i <= stored.len(),
            stored_from(stored@, user_id, 0) == stored_from(stored@, user_id, i as int),
        decreases stored.len() - i,
    {
        if stored[i].user_id == user_id {
            return Some(stored[i]);
        }
        i += 1;
    }
    None
}

/// The first voice state that `voice_states` holds for `user_id`.
pub fn find_voice_state(voice_states: &Vec<AnnouncedVoiceState>, user_id: u64) -> (voice_state: Option<
    AnnouncedVoiceState,
>)
    ensures
        voice_state == voice_state_from(voice_states@, user_id, 0),
{
    let mut i: usize = 0;
    while i < voice_states.len()
        invariant
            i <= voice_states.len(),
            voice_state_from(voice_states@, user_id, 0) == voice_state_from(voice_states@, user_id, i as int),
        decreases voice_states.len() - i,
    {
        if voice_states[i].user_id == user_id {
            return Some(voice_states[i]);
        }
        i += 1;
    }
    None
}

/// The roster of a guild that is observed in full: one entry for each
/// announced member, in order, each joined with what storage holds of it
/// and with where in voice it is.
pub fn build_roster(
    members: &Vec<AnnouncedMember>,
    stored: &Vec<StoredMember>,
    voice_states: &Vec<AnnouncedVoiceState>,
) -> (roster: Vec<RosterMember>)
    ensures
        roster@.len() == members@.len(),
        forall|i: int|
            0 <= i < roster@.len() ==> (#[trigger] roster@[i])@ == roster_entry(
                members@[i].avatar_url@,
                members@[i].bot,
                members@[i].discriminator,
                members@[i].role_ids@,
                members@[i].user_id,
                members@[i].username@,
                stored@,
                voice_states@,
            ),
{
    let mut roster: Vec<RosterMember> = Vec::new();
    let mut i: usize = 0;
    while i < members.len()
        invariant
            i <= members.len(),
            roster@.len() == i,
            forall|j: int|
                0 <= j < i ==> (#[trigger] roster@[j])@ == roster_entry(
                    members@[j].avatar_url@,
                    members@[j].bot,
                    members@[j].discriminator,
                    members@[j].role_ids@,
                    members@[j].user_id,
                    members@[j].username@,
                    stored@,
                    voice_states@,
                ),
        decreases members.len() - i,
    {
        let member = &members[i];
        let row = find_stored(stored, member.user_id);
        let voice_state = find_voice_state(voice_states, member.user_id);
        let (xp, last_message_timestamp) = match row {
            Some(row) => (row.xp, row.last_message_timestamp),
            None => (0, None),
        };
        let voice_channel_id = match voice_state {
            Some(voice_state) => voice_state.channel_id,
            None => None,
        };
        roster.push(
            RosterMember {
                avatar_url: member.avatar_url.clone(),
                bot: member.bot,
                discriminator: member.discriminator,
                last_message_timestamp,
                role_ids: member.role_ids.clone(),
                user_id: member.user_id,
                username: member.username.clone(),
                voice_channel_id,
                xp,
            },
        );
        i += 1;
    }
    roster
}

} // verus!
