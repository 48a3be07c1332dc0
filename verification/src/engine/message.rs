//! Messages: what a message earns its author, and when it earns nothing.

use crate::cache::model::CacheView;
use crate::cache::Cache;
use crate::engine::{lemma_award_grows, settle, spec_settle, Settlement, SettlementView};
use crate::outside::random_between;
use crate::types::{MemberUpdate, MemberUpdateView};
use crate::xp::{
    fits_i64, lemma_message_timestamp_bounds, message_timestamp, message_xp, on_cooldown,
    spec_message_timestamp, spec_message_xp, spec_on_cooldown, COOLDOWN_MILLIS, MAX_BASE_XP, MIN_BASE_XP,
};
use vstd::prelude::*;

verus! {

/// A message as the platform announces it.
#[derive(Clone, Copy, Debug, PartialEq, Eq, Structural)]
pub struct MessageEvent {
    pub guild_id: Option<u64>,
    pub author_id: u64,
    pub author_is_bot: bool,
    pub message_id: u64,
}

/// What a message earns its author: the millisecond at which it was written,
/// which becomes the author's last earning message, and the settlement.
pub struct MessageAward {
    pub timestamp: i64,
    pub settlement: Settlement,
}

/// The model of a `MessageAward`.
pub struct MessageAwardView {
    pub timestamp: i64,
    pub settlement: SettlementView,
}

impl View for MessageAward {
    type V = MessageAwardView;

    open spec fn view(&self) -> MessageAwardView {
        MessageAwardView { timestamp: self.timestamp, settlement: self.settlement@ }
    }
}

impl CacheView {
    /// Whether a message earns its author anything: it was written in a
    /// guild that is held, by a member that is held and is no bot, and not
    /// within the cooldown of that member's last earning message.
    pub open spec fn message_earns(self, event: MessageEvent) -> bool {
        &&& event.guild_id is Some
        &&& self.guilds.contains_key(event.guild_id->0)
        &&& !event.author_is_bot
        &&& self.members.contains_key((event.guild_id->0, event.author_id))
        &&& !spec_on_cooldown(
            self.members[(event.guild_id->0, event.author_id)].last_message_timestamp,
            spec_message_timestamp(event.message_id) as i64,
        )
    }

    /// What a message of base experience `base` earns its author.
    pub open spec fn message_award(self, event: MessageEvent, base: int) -> Option<MessageAwardView> {
        if self.message_earns(event) {
            let guild = self.guilds[event.guild_id->0];
            let member = self.members[(event.guild_id->0, event.author_id)];
            Some(
                MessageAwardView {
                    timestamp: spec_message_timestamp(event.message_id) as i64,
                    settlement: spec_settle(member, guild, spec_message_xp(base, guild.xp_multiplier)),
                },
            )
        } else {
            None
        }
    }

    /// Whether the author's experience leaves room for what a message of
    /// base experience `base` earns.
    pub open spec fn message_room(self, event: MessageEvent, base: int) -> bool {
        self.message_earns(event) ==> fits_i64(
            self.members[(event.guild_id->0, event.author_id)].xp + spec_message_xp(
                base,
                self.guilds[event.guild_id->0].xp_multiplier,
            ),
        )
    }

    /// The cache after a message award has been applied: the author has the
    /// new experience, and the message is its last earning one.
    pub open spec fn apply_message_award(self, award: MessageAwardView) -> CacheView {
        self.update_member(
            award.settlement.guild_id,
            award.settlement.user_id,
            MemberUpdateView {
                last_message_timestamp: Some(Some(award.timestamp)),
                xp: Some(award.settlement.xp),
                ..MemberUpdateView::keep()
            },
        )
    }
}

impl Cache {
    /// What a message of base experience `base_xp` earns its author, on the
    /// cache as it stands: `None` where it earns nothing.
    pub fn message_award_with(&self, event: &MessageEvent, base_xp: u64) -> (award: Option<MessageAward>)
        requires
            MIN_BASE_XP <= base_xp <= MAX_BASE_XP,
            self@.message_room(*event, base_xp as int),
        ensures
            award is Some <==> self@.message_earns(*event),
            award matches Some(a) ==> Some(a@) == self@.message_award(*event, base_xp as int),
    {
        let guild_id = match event.guild_id {
            Some(guild_id) => guild_id,
            None => {
                return None;
            },
        };
        let guild = match self.get_guild(guild_id) {
            Some(guild) => guild,
            None => {
                return None;
            },
        };
        if event.author_is_bot {
            return None;
        }
        let timestamp = message_timestamp(event.message_id);
        let member = match self.get_member(guild_id, event.author_id) {
            Some(member) => member,
            None => {
                return None;
            },
        };
        if on_cooldown(member.last_message_timestamp, timestamp) {
            return None;
        }
        let xp = message_xp(base_xp, guild.xp_multiplier);
        let settlement = settle(&member, &guild, xp as i128);
        Some(MessageAward { timestamp, settlement })
    }

    /// What a message earns its author, on the cache as it stands: `None`
    /// where it earns nothing, else what `message_award_with` gives for a
    /// base experience drawn at random between `MIN_BASE_XP` and
    /// `MAX_BASE_XP`.
    pub fn message_award(&self, event: &MessageEvent) -> (award: Option<MessageAward>)
        requires
            forall|base: int| MIN_BASE_XP <= base <= MAX_BASE_XP ==> #[trigger] self@.message_room(*event, base),
        ensures
            award is Some <==> self@.message_earns(*event),
            award matches Some(a) ==> exists|base: int|
                MIN_BASE_XP <= base <= MAX_BASE_XP && Some(a@) == #[trigger] self@.message_award(
                    *event,
                    base,
                ),
    {
        let base_xp = random_between(MIN_BASE_XP, MAX_BASE_XP);
        assert(self@.message_room(*event, base_xp as int));
        let award = self.message_award_with(event, base_xp);
        proof {
            if award is Some {
                assert(Some(award->0@) == self@.message_award(*event, base_xp as int));
            }
        }
        award
    }

    /// Applies a message award: the author, where it is held, has the new
    /// experience, and the message is its last earning one.
    pub fn apply_message_award(&mut self, award: &MessageAward)
        requires
            old(self).wf(),
        ensures
            final(self)@ == old(self)@.apply_message_award(award@),
            final(self).wf(),
    {
        self.update_member(
            award.settlement.guild_id,
            award.settlement.user_id,
            MemberUpdate {
                avatar_url: None,
                discriminator: None,
                joined_voice_timestamp: None,
                last_message_timestamp: Some(Some(award.timestamp)),
                role_ids: None,
                username: None,
                voice_channel_id: None,
                xp: Some(award.settlement.xp),
            },
        );
    }

    /// Whether the author's experience leaves room for whatever a message
    /// may earn, which is what `message_award` asks for.
    pub fn has_message_room(&self, event: &MessageEvent) -> (room: bool)
        ensures
            room <==> forall|base: int|
                MIN_BASE_XP <= base <= MAX_BASE_XP ==> #[trigger] self@.message_room(*event, base),
    {
        let guild_id = match event.guild_id {
            Some(guild_id) => guild_id,
            None => {
                return true;
            },
        };
        let guild = match self.get_guild(guild_id) {
            Some(guild) => guild,
            None => {
                return true;
            },
        };
        let member = match self.get_member(guild_id, event.author_id) {
            Some(member) => member,
            None => {
                return true;
            },
        };
        if event.author_is_bot || on_cooldown(member.last_message_timestamp, message_timestamp(event.message_id)) {
            return true;
        }
        let most = message_xp(MAX_BASE_XP, guild.xp_multiplier);
        let room = member.xp <= i64::MAX - most;
        proof {
            assert(self@.message_earns(*event));
            if room {
                assert forall|base: int| MIN_BASE_XP <= base <= MAX_BASE_XP implies #[trigger] self@.message_room(
                    *event,
                    base,
                ) by {
                    lemma_award_grows(base, MAX_BASE_XP as int, guild.xp_multiplier@, 10);
                    lemma_award_grows(0, base, guild.xp_multiplier@, 10);
                }
            } else {
                assert(!self@.message_room(*event, MAX_BASE_XP as int));
            }
        }
        room
    }
}

/// Within the cooldown of a message that earned, no further message of the
/// same member earns; from the end of the cooldown on, the next one does.
/// So of two messages less than `COOLDOWN_MILLIS` milliseconds apart only the
/// first earns, and of two that are at least that far apart both do.
pub proof fn lemma_message_cooldown(cache: CacheView, first: MessageEvent, base: int, second: MessageEvent)
    requires
        cache.wf(),
        cache.message_earns(first),
        second.guild_id == first.guild_id,
        second.author_id == first.author_id,
        !second.author_is_bot,
    ensures
        cache.apply_message_award(cache.message_award(first, base)->0).message_earns(second)
            <==> spec_message_timestamp(second.message_id) >= spec_message_timestamp(first.message_id)
            + COOLDOWN_MILLIS,
{
    lemma_message_timestamp_bounds(first.message_id);
    lemma_message_timestamp_bounds(second.message_id);
}

} // verus!
