//! Voice: what a stay in a voice channel earns, and whom a departure
//! leaves alone.

use crate::cache::model::CacheView;
use crate::cache::Cache;
use crate::engine::{lemma_award_grows, settle, spec_settle, Settlement, SettlementView};
use crate::levels::spec_level_for;
use crate::outside::{unix_now, CLOCK_LIMIT};
use crate::sets::{copy_ids, ids_to_vec};
use crate::types::{ChannelUpdate, MemberUpdate, MemberUpdateView};
use crate::xp::{fits_i64, spec_voice_xp, voice_xp};
use std::collections::HashSet;
use vstd::prelude::*;

verus! {

broadcast use vstd::std_specs::hash::group_hash_axioms;

/// A member's voice state as the platform announces it.
#[derive(Clone, Copy, Debug, PartialEq, Eq, Structural)]
pub struct VoiceState {
    pub guild_id: Option<u64>,
    pub user_id: u64,
    pub channel_id: Option<u64>,
    pub deaf: bool,
    pub mute: bool,
    pub self_deaf: bool,
    pub self_mute: bool,
    pub suppress: bool,
}

impl VoiceState {
    /// Whether the member is deafened, muted or suppressed, by itself or by
    /// the guild.
    pub open spec fn spec_silenced(self) -> bool {
        self.deaf || self.mute || self.self_deaf || self.self_mute || self.suppress
    }

    /// Whether the member is deafened, muted or suppressed, by itself or by
    /// the guild.
    pub fn silenced(&self) -> (silenced: bool)
        ensures
            silenced == self.spec_silenced(),
    {
        self.deaf || self.mute || self.self_deaf || self.self_mute || self.suppress
    }
}

/// What a voice session that ended earns: the settlement, the second at
/// which the session ended, the channel that the member is to be struck
/// from when the settlement is applied, and the one member that is then
/// left alone in that channel, if there is exactly one.
pub struct VoiceSettlement {
    pub settlement: Settlement,
    pub now: i64,
    pub channel_id: Option<u64>,
    pub remaining_user_id: Option<u64>,
}

/// The model of a `VoiceSettlement`.
pub struct VoiceSettlementView {
    pub settlement: SettlementView,
    pub now: i64,
    pub channel_id: Option<u64>,
    pub remaining_user_id: Option<u64>,
}

impl View for VoiceSettlement {
    type V = VoiceSettlementView;

    open spec fn view(&self) -> VoiceSettlementView {
        VoiceSettlementView {
            settlement: self.settlement@,
            now: self.now,
            channel_id: self.channel_id,
            remaining_user_id: self.remaining_user_id,
        }
    }
}

/// The member that is alone in a channel with the occupants `user_ids`.
pub open spec fn sole_occupant(user_ids: Set<u64>) -> Option<u64> {
    if user_ids.finite() && user_ids.len() == 1 {
        Some(user_ids.choose())
    } else {
        None
    }
}

impl CacheView {
    /// Whether a voice state concerns a member that the engine follows: a
    /// member that is held, of a guild that is held, and no bot.
    pub open spec fn voice_followed(self, state: VoiceState) -> bool {
        &&& state.guild_id is Some
        &&& self.guilds.contains_key(state.guild_id->0)
        &&& self.members.contains_key((state.guild_id->0, state.user_id))
        &&& !self.members[(state.guild_id->0, state.user_id)].bot
    }

    /// The cache after a member has joined the voice channel `channel_id`
    /// at `now`. The session of a silenced member, and of a member that has
    /// none, begins at `now`; another member keeps the session that it has.
    /// The member is recorded as being in the channel, and the channel,
    /// where it is held, as holding the member.
    pub open spec fn voice_joined(self, state: VoiceState, channel_id: u64, now: i64) -> CacheView {
        let guild_id = state.guild_id->0;
        let member = self.members[(guild_id, state.user_id)];
        let joined = if state.spec_silenced() || member.joined_voice_timestamp is None {
            Some(now)
        } else {
            member.joined_voice_timestamp
        };
        let recorded = self.update_member(
            guild_id,
            state.user_id,
            MemberUpdateView {
                joined_voice_timestamp: Some(joined),
                voice_channel_id: Some(Some(channel_id)),
                ..MemberUpdateView::keep()
            },
        );
        if recorded.channels.contains_key(channel_id) {
            recorded.update_channel(
                channel_id,
                Some(recorded.channels[channel_id].user_ids.insert(state.user_id)),
            )
        } else {
            recorded
        }
    }

    /// The cache right after a voice state has been taken in at `now`. A
    /// join of a member that is followed is recorded in full. Anything else
    /// changes nothing: what a leave earns is handed back, and the cache
    /// changes only when that is applied.
    pub open spec fn voice_state_update(self, state: VoiceState, now: i64) -> CacheView {
        if self.voice_followed(state) && state.channel_id is Some {
            self.voice_joined(state, state.channel_id->0, now)
        } else {
            self
        }
    }

    /// Whether a voice state ends a session that earns: the member is
    /// followed, is in no channel any more, and has a session.
    pub open spec fn voice_earns(self, state: VoiceState) -> bool {
        &&& self.voice_followed(state)
        &&& state.channel_id is None
        &&& self.members[(state.guild_id->0, state.user_id)].joined_voice_timestamp is Some
    }

    /// The member that is left alone in the channel `channel_id` once
    /// `user_id` is struck from it, if the channel is held and exactly one
    /// member is left.
    pub open spec fn left_alone(self, channel_id: Option<u64>, user_id: u64) -> Option<u64> {
        if channel_id is Some && self.channels.contains_key(channel_id->0) {
            sole_occupant(self.channels[channel_id->0].user_ids.remove(user_id))
        } else {
            None
        }
    }

    /// What the session that a voice state ends at `now` earns, with the
    /// channel that the member was recorded in and the member that it
    /// leaves alone there, if any.
    pub open spec fn voice_settlement(self, state: VoiceState, now: i64) -> Option<VoiceSettlementView> {
        if self.voice_earns(state) {
            let guild = self.guilds[state.guild_id->0];
            let member = self.members[(state.guild_id->0, state.user_id)];
            Some(
                VoiceSettlementView {
                    settlement: spec_settle(
                        member,
                        guild,
                        spec_voice_xp(now - member.joined_voice_timestamp->0, guild.xp_multiplier),
                    ),
                    now,
                    channel_id: member.voice_channel_id,
                    remaining_user_id: self.left_alone(member.voice_channel_id, state.user_id),
                },
            )
        } else {
            None
        }
    }

    /// Whether the member's experience leaves room for what the session
    /// that a voice state ends at `now` earns.
    pub open spec fn voice_room(self, state: VoiceState, now: i64) -> bool {
        self.voice_earns(state) ==> fits_i64(
            self.members[(state.guild_id->0, state.user_id)].xp + spec_voice_xp(
                now - self.members[(state.guild_id->0, state.user_id)].joined_voice_timestamp->0,
                self.guilds[state.guild_id->0].xp_multiplier,
            ),
        )
    }

    /// The cache after a voice settlement has been applied: the member has
    /// the new experience, no session and no voice channel, and the channel
    /// that the settlement names, where it is held, no longer holds the
    /// member.
    pub open spec fn apply_voice_settlement(self, settlement: VoiceSettlementView) -> CacheView {
        let cleared = self.update_member(
            settlement.settlement.guild_id,
            settlement.settlement.user_id,
            MemberUpdateView {
                joined_voice_timestamp: Some(None),
                voice_channel_id: Some(None),
                xp: Some(settlement.settlement.xp),
                ..MemberUpdateView::keep()
            },
        );
        if settlement.channel_id is Some && cleared.channels.contains_key(settlement.channel_id->0) {
            cleared.update_channel(
                settlement.channel_id->0,
                Some(cleared.channels[settlement.channel_id->0].user_ids.remove(settlement.settlement.user_id)),
            )
        } else {
            cleared
        }
    }

    /// Whether the member that a departure left alone has a session to
    /// settle: it is held, with its guild, and has a session.
    pub open spec fn solo_earns(self, guild_id: u64, remaining_user_id: Option<u64>) -> bool {
        &&& remaining_user_id is Some
        &&& self.guilds.contains_key(guild_id)
        &&& self.members.contains_key((guild_id, remaining_user_id->0))
        &&& self.members[(guild_id, remaining_user_id->0)].joined_voice_timestamp is Some
    }

    /// What the session of the member that a departure at `now` left alone
    /// earns: its session ends as the departed member's did. The member
    /// stays among the occupants of the channel.
    pub open spec fn solo_settlement(self, guild_id: u64, remaining_user_id: Option<u64>, now: i64) -> Option<
        VoiceSettlementView,
    > {
        if self.solo_earns(guild_id, remaining_user_id) {
            let guild = self.guilds[guild_id];
            let member = self.members[(guild_id, remaining_user_id->0)];
            Some(
                VoiceSettlementView {
                    settlement: spec_settle(
                        member,
                        guild,
                        spec_voice_xp(now - member.joined_voice_timestamp->0, guild.xp_multiplier),
                    ),
                    now,
                    channel_id: None,
                    remaining_user_id: None,
                },
            )
        } else {
            None
        }
    }

    /// Whether the experience of the member that a departure left alone
    /// leaves room for what its session earns.
    pub open spec fn solo_room(self, guild_id: u64, remaining_user_id: Option<u64>, now: i64) -> bool {
        self.solo_earns(guild_id, remaining_user_id) ==> fits_i64(
            self.members[(guild_id, remaining_user_id->0)].xp + spec_voice_xp(
                now - self.members[(guild_id, remaining_user_id->0)].joined_voice_timestamp->0,
                self.guilds[guild_id].xp_multiplier,
            ),
        )
    }
}

impl Cache {
    /// Takes in a voice state at the second `now`. A join is recorded in
    /// full. A leave of a member that has a session hands back what the
    /// session earns and changes nothing: the cache changes when the
    /// settlement is applied. Anything else changes nothing.
    pub fn voice_state_update_at(&mut self, state: &VoiceState, now: i64) -> (settlement: Option<
        VoiceSettlement,
    >)
        requires
            old(self).wf(),
            old(self)@.voice_room(*state, now),
        ensures
            final(self)@ == old(self)@.voice_state_update(*state, now),
            state.channel_id is None ==> final(self)@ == old(self)@,
            final(self).wf(),
            settlement is Some <==> old(self)@.voice_earns(*state),
            settlement matches Some(s) ==> Some(s@) == old(self)@.voice_settlement(*state, now),
    {
        let guild_id = match state.guild_id {
            Some(guild_id) => guild_id,
            None => {
                return None;
            },
        };
        let guild = match self.get_guild(guild_id) {
            Some(guild) => guild,
            None => {
                return None;
            },
        };
        let user_id = state.user_id;
        let member = match self.get_member(guild_id, user_id) {
            Some(member) => member,
            None => {
                return None;
            },
        };
        if member.bot {
            return None;
        }
        match state.channel_id {
            Some(channel_id) => {
                let joined_voice_timestamp = if state.silenced() {
                    Some(now)
                } else {
                    match member.joined_voice_timestamp {
                        Some(joined) => Some(joined),
                        None => Some(now),
                    }
                };
                self.update_member(
                    guild_id,
                    user_id,
                    MemberUpdate {
                        avatar_url: None,
                        discriminator: None,
                        joined_voice_timestamp: Some(joined_voice_timestamp),
                        last_message_timestamp: None,
                        role_ids: None,
                        username: None,
                        voice_channel_id: Some(Some(channel_id)),
                        xp: None,
                    },
                );
                let channel = match self.get_channel(channel_id) {
                    Some(channel) => channel,
                    None => {
                        return None;
                    },
                };
                let mut user_ids = copy_ids(&channel.user_ids);
                user_ids.insert(user_id);
                self.update_channel(channel_id, ChannelUpdate { user_ids: Some(user_ids) });
                None
            },
            None => {
                let joined = match member.joined_voice_timestamp {
                    Some(joined) => joined,
                    None => {
                        return None;
                    },
                };
                let remaining_user_id = match member.voice_channel_id {
                    Some(channel_id) => match self.get_channel(channel_id) {
                        Some(channel) => {
                            let mut user_ids = copy_ids(&channel.user_ids);
                            user_ids.remove(&user_id);
                            only_id(&user_ids)
                        },
                        None => None,
                    },
                    None => None,
                };
                let xp = voice_xp(joined, now, guild.xp_multiplier);
                let settlement = settle(&member, &guild, xp);
                Some(VoiceSettlement { settlement, now, channel_id: member.voice_channel_id, remaining_user_id })
            },
        }
    }

    /// Takes in a voice state now: `voice_state_update_at` at the second
    /// that the clock gives, which the settlement, where there is one,
    /// names.
    pub fn voice_state_update(&mut self, state: &VoiceState) -> (settlement: Option<VoiceSettlement>)
        requires
            old(self).wf(),
            forall|now: i64|
                -CLOCK_LIMIT <= now <= CLOCK_LIMIT ==> #[trigger] old(self)@.voice_room(*state, now),
        ensures
            exists|now: i64|
                {
                    &&& -CLOCK_LIMIT <= now <= CLOCK_LIMIT
                    &&& final(self)@ == #[trigger] old(self)@.voice_state_update(*state, now)
                    &&& settlement matches Some(s) ==> Some(s@) == old(self)@.voice_settlement(
                        *state,
                        now,
                    )
                },
            state.channel_id is None ==> final(self)@ == old(self)@,
            final(self).wf(),
            settlement is Some <==> old(self)@.voice_earns(*state),
    {
        let now = unix_now();
        assert(old(self)@.voice_room(*state, now));
        let settlement = self.voice_state_update_at(state, now);
        assert(self@ == old(self)@.voice_state_update(*state, now));
        settlement
    }

    /// Applies a voice settlement, once what it owes to the outside is
    /// done: the member, where it is held, has the new experience, no
    /// session and no voice channel, and the channel that the settlement
    /// names, where it is held, no longer holds the member.
    pub fn apply_voice_settlement(&mut self, settlement: &VoiceSettlement)
        requires
            old(self).wf(),
        ensures
            final(self)@ == old(self)@.apply_voice_settlement(settlement@),
            final(self).wf(),
    {
        self.update_member(
            settlement.settlement.guild_id,
            settlement.settlement.user_id,
            MemberUpdate {
                avatar_url: None,
                discriminator: None,
                joined_voice_timestamp: Some(None),
                last_message_timestamp: None,
                role_ids: None,
                username: None,
                voice_channel_id: Some(None),
                xp: Some(settlement.settlement.xp),
            },
        );
        let channel_id = match settlement.channel_id {
            Some(channel_id) => channel_id,
            None => {
                return ;
            },
        };
        let channel = match self.get_channel(channel_id) {
            Some(channel) => channel,
            None => {
                return ;
            },
        };
        let mut user_ids = copy_ids(&channel.user_ids);
        user_ids.remove(&settlement.settlement.user_id);
        self.update_channel(channel_id, ChannelUpdate { user_ids: Some(user_ids) });
    }

    /// What the session of the member that `departure` left alone in its
    /// channel earns, on the cache as it stands: that member's session ends
    /// at the second at which the departed member's did. `None` where no
    /// member was left alone, or where that member has no session.
    pub fn solo_settlement(&self, departure: &VoiceSettlement) -> (settlement: Option<VoiceSettlement>)
        requires
            self@.solo_room(departure.settlement.guild_id, departure.remaining_user_id, departure.now),
        ensures
            settlement is Some <==> self@.solo_earns(
                departure.settlement.guild_id,
                departure.remaining_user_id,
            ),
            settlement matches Some(s) ==> Some(s@) == self@.solo_settlement(
                departure.settlement.guild_id,
                departure.remaining_user_id,
                departure.now,
            ),
    {
        let guild_id = departure.settlement.guild_id;
        let only_user_id = match departure.remaining_user_id {
            Some(only_user_id) => only_user_id,
            None => {
                return None;
            },
        };
        let guild = match self.get_guild(guild_id) {
            Some(guild) => guild,
            None => {
                return None;
            },
        };
        let only_member = match self.get_member(guild_id, only_user_id) {
            Some(only_member) => only_member,
            None => {
                return None;
            },
        };
        let joined = match only_member.joined_voice_timestamp {
            Some(joined) => joined,
            None => {
                return None;
            },
        };
        let xp = voice_xp(joined, departure.now, guild.xp_multiplier);
        let settlement = settle(&only_member, &guild, xp);
        Some(VoiceSettlement { settlement, now: departure.now, channel_id: None, remaining_user_id: None })
    }

    /// Whether the member's experience leaves room for what the session
    /// that a voice state ends at `now` earns, which is what
    /// `voice_state_update_at` asks for.
    pub fn has_voice_room_at(&self, state: &VoiceState, now: i64) -> (room: bool)
        ensures
            room == self@.voice_room(*state, now),
    {
        let guild_id = match state.guild_id {
            Some(guild_id) => guild_id,
            None => {
                return true;
            },
        };
        let guild = match self.get_guild(guild_id) {
            Some(guild) => guild,
            None => {
                return true;
            },
        };
        let member = match self.get_member(guild_id, state.user_id) {
            Some(member) => member,
            None => {
                return true;
            },
        };
        if member.bot || state.channel_id.is_some() {
            return true;
        }
        let joined = match member.joined_voice_timestamp {
            Some(joined) => joined,
            None => {
                return true;
            },
        };
        let after: i128 = member.xp as i128 + voice_xp(joined, now, guild.xp_multiplier);
        after <= i64::MAX as i128
    }

    /// Whether the member's experience leaves room for what the session
    /// that a voice state ends earns at whatever second the clock may give,
    /// which is what `voice_state_update` asks for.
    pub fn has_voice_room(&self, state: &VoiceState) -> (room: bool)
        ensures
            room <==> forall|now: i64|
                -CLOCK_LIMIT <= now <= CLOCK_LIMIT ==> #[trigger] self@.voice_room(*state, now),
    {
        let room = self.has_voice_room_at(state, CLOCK_LIMIT);
        let rate: u8 = match state.guild_id {
            Some(guild_id) => match self.get_guild(guild_id) {
                Some(guild) => guild.xp_multiplier.tenths(),
                None => 10,
            },
            None => 10,
        };
        proof {
            if room && self@.voice_earns(*state) {
                let member = self@.members[(state.guild_id->0, state.user_id)];
                let tenths = self@.guilds[state.guild_id->0].xp_multiplier;
                let joined = member.joined_voice_timestamp->0;
                assert(tenths == rate);
                assert forall|now: i64| -CLOCK_LIMIT <= now <= CLOCK_LIMIT implies #[trigger] self@.voice_room(
                    *state,
                    now,
                ) by {
                    lemma_voice_award_grows(now - joined, CLOCK_LIMIT - joined, tenths);
                }
            }
        }
        room
    }

    /// Whether the experience of the member that `departure` left alone
    /// leaves room for what its session earns, which is what
    /// `solo_settlement` asks for.
    pub fn has_solo_room(&self, departure: &VoiceSettlement) -> (room: bool)
        ensures
            room == self@.solo_room(
                departure.settlement.guild_id,
                departure.remaining_user_id,
                departure.now,
            ),
    {
        let guild_id = departure.settlement.guild_id;
        let only_user_id = match departure.remaining_user_id {
            Some(only_user_id) => only_user_id,
            None => {
                return true;
            },
        };
        let guild = match self.get_guild(guild_id) {
            Some(guild) => guild,
            None => {
                return true;
            },
        };
        let member = match self.get_member(guild_id, only_user_id) {
            Some(member) => member,
            None => {
                return true;
            },
        };
        let joined = match member.joined_voice_timestamp {
            Some(joined) => joined,
            None => {
                return true;
            },
        };
        let after: i128 = member.xp as i128 + voice_xp(joined, departure.now, guild.xp_multiplier);
        after <= i64::MAX as i128
    }
}

/// What a longer stay in voice is worth is no less, and no stay is worth
/// less than nothing.
pub proof fn lemma_voice_award_grows(shorter: int, longer: int, tenths: int)
    requires
        shorter <= longer,
        tenths >= 0,
    ensures
        0 <= spec_voice_xp(shorter, tenths) <= spec_voice_xp(longer, tenths),
{
    if shorter > 0 {
        lemma_award_grows(shorter, longer, tenths, 40);
        lemma_award_grows(0, shorter, tenths, 40);
    } else if longer > 0 {
        lemma_award_grows(0, longer, tenths, 40);
    }
}

/// A leave of a member that has no session changes nothing and earns
/// nothing.
pub proof fn lemma_leave_without_session(cache: CacheView, state: VoiceState, now: i64)
    requires
        state.channel_id is None,
        state.guild_id is Some,
        cache.members.contains_key((state.guild_id->0, state.user_id)) ==> cache.members[(
            state.guild_id->0,
            state.user_id,
        )].joined_voice_timestamp is None,
    ensures
        cache.voice_state_update(state, now) == cache,
        cache.voice_settlement(state, now) is None,
{
}

/// A member without flags that joins at one second and leaves at a later
/// one earns a quarter of the seconds between, times the multiplier,
/// rounded down, where it had no session before.
pub proof fn lemma_voice_accrual(cache: CacheView, join: VoiceState, leave: VoiceState, joined: i64, left: i64)
    requires
        cache.wf(),
        cache.voice_followed(join),
        join.channel_id is Some,
        !join.spec_silenced(),
        cache.members[(join.guild_id->0, join.user_id)].joined_voice_timestamp is None,
        leave.guild_id == join.guild_id,
        leave.user_id == join.user_id,
        leave.channel_id is None,
        joined <= left,
    ensures
        ({
            let member = cache.members[(join.guild_id->0, join.user_id)];
            let guild = cache.guilds[join.guild_id->0];
            let settlement = cache.voice_state_update(join, joined).voice_settlement(leave, left);
            &&& settlement is Some
            &&& settlement->0.settlement.xp == (member.xp + (left - joined) * guild.xp_multiplier / 40) as i64
        }),
{
    let guild_id = join.guild_id->0;
    let after = cache.voice_state_update(join, joined);
    assert(after.members.contains_key((guild_id, join.user_id)));
    assert(after.members[(guild_id, join.user_id)].joined_voice_timestamp == Some(joined));
    assert(after.members[(guild_id, join.user_id)].xp == cache.members[(guild_id, join.user_id)].xp);
    assert(after.guilds == cache.guilds);
    assert(after.voice_earns(leave));
    let tenths = cache.guilds[guild_id].xp_multiplier;
    assert(left == joined ==> (left - joined) * tenths / 40 == 0) by (nonlinear_arith);
}

/// Applying a voice settlement ends the member's session: it has no
/// session and no voice channel afterwards, and the settled experience; the
/// channel that the settlement names no longer holds it.
pub proof fn lemma_voice_settlement_ends_session(cache: CacheView, settlement: VoiceSettlementView)
    requires
        cache.wf(),
        cache.members.contains_key((settlement.settlement.guild_id, settlement.settlement.user_id)),
    ensures
        ({
            let after = cache.apply_voice_settlement(settlement);
            let key = (settlement.settlement.guild_id, settlement.settlement.user_id);
            &&& after.members.contains_key(key)
            &&& after.members[key].joined_voice_timestamp is None
            &&& after.members[key].voice_channel_id is None
            &&& after.members[key].xp == settlement.settlement.xp
            &&& settlement.channel_id is Some && after.channels.contains_key(settlement.channel_id->0)
                ==> !after.channels[settlement.channel_id->0].user_ids.contains(settlement.settlement.user_id)
        }),
{
}

/// The flush of a channel that a departure leaves with one member. Where
/// two members with sessions are the occupants of a channel and one of them
/// leaves, the departure names the other as left alone; once the departure
/// is applied, the other member's session is settled as though it had left
/// too: it earns what its own stay is worth, its roles are given exactly
/// where its level changes, and once that is applied too, neither member
/// has a session or a voice channel.
pub proof fn lemma_solo_flush(cache: CacheView, leave: VoiceState, channel_id: u64, stays: u64, now: i64)
    requires
        cache.wf(),
        cache.voice_earns(leave),
        stays != leave.user_id,
        cache.channels.contains_key(channel_id),
        cache.channels[channel_id].user_ids == set![leave.user_id, stays],
        cache.members[(leave.guild_id->0, leave.user_id)].voice_channel_id == Some(channel_id),
        cache.members.contains_key((leave.guild_id->0, stays)),
        cache.members[(leave.guild_id->0, stays)].joined_voice_timestamp is Some,
    ensures
        ({
            let guild_id = leave.guild_id->0;
            let guild = cache.guilds[guild_id];
            let other = cache.members[(guild_id, stays)];
            let departure = cache.voice_settlement(leave, now)->0;
            let applied = cache.apply_voice_settlement(departure);
            let solo = applied.solo_settlement(guild_id, departure.remaining_user_id, now);
            let award = spec_voice_xp(now - other.joined_voice_timestamp->0, guild.xp_multiplier);
            let settled = applied.apply_voice_settlement(solo->0);
            &&& departure.remaining_user_id == Some(stays)
            &&& solo is Some
            &&& solo->0.settlement == spec_settle(other, guild, award)
            &&& fits_i64(other.xp + award) ==> solo->0.settlement.xp == other.xp + award
            &&& solo->0.settlement.role_ids is Some <==> spec_level_for(other.xp + award) != spec_level_for(
                other.xp as int,
            )
            &&& settled.members[(guild_id, stays)].joined_voice_timestamp is None
            &&& settled.members[(guild_id, stays)].voice_channel_id is None
            &&& settled.members[(guild_id, leave.user_id)].joined_voice_timestamp is None
            &&& settled.members[(guild_id, leave.user_id)].voice_channel_id is None
        }),
{
    let left = cache.channels[channel_id].user_ids.remove(leave.user_id);
    assert(left =~= set![stays]);
    assert(left.finite() && left.len() == 1);
    assert(left.contains(left.choose()));
}

/// The one identifier of `ids`, where it holds exactly one.
pub fn only_id(ids: &HashSet<u64>) -> (only: Option<u64>)
    ensures
        only == sole_occupant(ids@),
        only matches Some(id) ==> ids@ == set![id],
{
    if ids.len() == 1 {
        let list = ids_to_vec(ids);
        let id = list[0];
        proof {
            assert(list@.to_set().contains(id));
            assert(ids@.finite());
            assert(ids@.contains(ids@.choose()));
            assert(ids@ =~= set![id]) by {
                assert forall|x: u64| ids@.contains(x) implies x == id by {
                    assert(list@.to_set().contains(x));
                    let j = choose|j: int| 0 <= j < list@.len() && list@[j] == x;
                    assert(j == 0);
                }
            }
        }
        Some(id)
    } else {
        None
    }
}

} // verus!
