//! The entities that the cache holds, the partial updates that it applies
//! to them, and their mathematical models.
//!
//! A snapshot is never changed once it is in the cache: every update builds a
//! new one. Identifiers are plain `u64`. Points in time are counted from the
//! Unix epoch: the beginning of a voice session in seconds, the last earning
//! message in milliseconds.

use crate::sets::copy_ids;
use crate::xp::Multiplier;
use std::collections::HashSet;
use vstd::prelude::*;

verus! {

/// The level-role table of a guild as it is stored: for each configured
/// level, the roles that it grants.
pub type LevelRoles = Vec<(u64, HashSet<u64>)>;

/// The model of a level-role table: each stored set by its contents.
pub open spec fn level_roles_view(levels: Seq<(u64, HashSet<u64>)>) -> Seq<(u64, Set<u64>)> {
    Seq::new(levels.len(), |i: int| (levels[i].0, levels[i].1@))
}

/// Whether a level-role table names each level at most once and grants at
/// least one role, and finitely many, at each level that it names.
pub open spec fn level_roles_valid(levels: Seq<(u64, Set<u64>)>) -> bool {
    &&& forall|i: int, j: int|
        0 <= i < j < levels.len() ==> (#[trigger] levels[i]).0 != (#[trigger] levels[j]).0
    &&& forall|i: int|
        0 <= i < levels.len() ==> (#[trigger] levels[i]).1.finite() && !levels[i].1.is_empty()
}

/// A table of its own that equals `levels`.
pub fn copy_level_roles(levels: &LevelRoles) -> (copy: LevelRoles)
    ensures
        level_roles_view(copy@) == level_roles_view(levels@),
{
    let mut copy: LevelRoles = Vec::new();
    let mut i: usize = 0;
    while i < levels.len()
        invariant
            i <= levels.len(),
            copy@.len() == i,
            forall|j: int| 0 <= j < i ==> copy@[j].0 == levels@[j].0 && copy@[j].1@ == levels@[j].1@,
        decreases levels.len() - i,
    {
        let level = levels[i].0;
        let role_ids = copy_ids(&levels[i].1);
        copy.push((level, role_ids));
        i += 1;
    }
    assert(level_roles_view(copy@) =~= level_roles_view(levels@));
    copy
}

/// A voice channel and the members in it.
pub struct Channel {
    pub channel_id: u64,
    pub guild_id: u64,
    pub user_ids: HashSet<u64>,
}

/// The model of a `Channel`.
pub struct ChannelView {
    pub channel_id: u64,
    pub guild_id: u64,
    pub user_ids: Set<u64>,
}

impl View for Channel {
    type V = ChannelView;

    open spec fn view(&self) -> ChannelView {
        ChannelView { channel_id: self.channel_id, guild_id: self.guild_id, user_ids: self.user_ids@ }
    }
}

/// The fields of a channel that an update replaces; an absent field is kept.
pub struct ChannelUpdate {
    pub user_ids: Option<HashSet<u64>>,
}

impl Default for ChannelUpdate {
    /// The update that keeps every field.
    fn default() -> (update: ChannelUpdate)
        ensures
            update.user_ids is None,
    {
        ChannelUpdate { user_ids: None }
    }
}

impl ChannelView {
    /// The channel after `user_ids`, where given, has replaced its occupants.
    pub open spec fn updated(self, user_ids: Option<Set<u64>>) -> ChannelView {
        ChannelView {
            user_ids: match user_ids {
                Some(ids) => ids,
                None => self.user_ids,
            },
            ..self
        }
    }
}

impl ChannelUpdate {
    /// The occupants that the update sets, by their contents.
    pub open spec fn user_ids_view(&self) -> Option<Set<u64>> {
        match self.user_ids {
            Some(ids) => Some(ids@),
            None => None,
        }
    }
}

/// A guild: its roster, its voice channels and its leveling configuration.
pub struct Guild {
    pub channel_ids: HashSet<u64>,
    pub guild_id: u64,
    pub levels: LevelRoles,
    pub member_ids: HashSet<u64>,
    pub name: String,
    pub xp_multiplier: Multiplier,
}

/// The model of a `Guild`.
pub struct GuildView {
    pub channel_ids: Set<u64>,
    pub guild_id: u64,
    pub levels: Seq<(u64, Set<u64>)>,
    pub member_ids: Set<u64>,
    pub name: Seq<char>,
    pub xp_multiplier: int,
}

impl View for Guild {
    type V = GuildView;

    open spec fn view(&self) -> GuildView {
        GuildView {
            channel_ids: self.channel_ids@,
            guild_id: self.guild_id,
            levels: level_roles_view(self.levels@),
            member_ids: self.member_ids@,
            name: self.name@,
            xp_multiplier: self.xp_multiplier@,
        }
    }
}

/// The fields of a guild that an update replaces; an absent field is kept.
pub struct GuildUpdate {
    pub channel_ids: Option<HashSet<u64>>,
    pub levels: Option<LevelRoles>,
    pub member_ids: Option<HashSet<u64>>,
    pub name: Option<String>,
    pub xp_multiplier: Option<Multiplier>,
}

/// The model of a `GuildUpdate`.
pub struct GuildUpdateView {
    pub channel_ids: Option<Set<u64>>,
    pub levels: Option<Seq<(u64, Set<u64>)>>,
    pub member_ids: Option<Set<u64>>,
    pub name: Option<Seq<char>>,
    pub xp_multiplier: Option<int>,
}

impl View for GuildUpdate {
    type V = GuildUpdateView;

    open spec fn view(&self) -> GuildUpdateView {
        GuildUpdateView {
            channel_ids: match self.channel_ids {
                Some(ids) => Some(ids@),
                None => None,
            },
            levels: match self.levels {
                Some(levels) => Some(level_roles_view(levels@)),
                None => None,
            },
            member_ids: match self.member_ids {
                Some(ids) => Some(ids@),
                None => None,
            },
            name: match self.name {
                Some(name) => Some(name@),
                None => None,
            },
            xp_multiplier: match self.xp_multiplier {
                Some(multiplier) => Some(multiplier@),
                None => None,
            },
        }
    }
}

impl Default for GuildUpdate {
    /// The update that keeps every field.
    fn default() -> (update: GuildUpdate)
        ensures
            update@ == GuildUpdateView::keep(),
    {
        GuildUpdate { channel_ids: None, levels: None, member_ids: None, name: None, xp_multiplier: None }
    }
}

impl GuildUpdateView {
    /// The update that keeps every field.
    pub open spec fn keep() -> GuildUpdateView {
        GuildUpdateView { channel_ids: None, levels: None, member_ids: None, name: None, xp_multiplier: None }
    }
}

impl GuildView {
    /// The guild after each field that `update` gives has replaced its own.
    pub open spec fn updated(self, update: GuildUpdateView) -> GuildView {
        GuildView {
            channel_ids: match update.channel_ids {
                Some(ids) => ids,
                None => self.channel_ids,
            },
            guild_id: self.guild_id,
            levels: match update.levels {
                Some(levels) => levels,
                None => self.levels,
            },
            member_ids: match update.member_ids {
                Some(ids) => ids,
                None => self.member_ids,
            },
            name: match update.name {
                Some(name) => name,
                None => self.name,
            },
            xp_multiplier: match update.xp_multiplier {
                Some(multiplier) => multiplier,
                None => self.xp_multiplier,
            },
        }
    }
}

/// A member of a guild: who they are, what they have earned and where in
/// voice they are. `joined_voice_timestamp` is in seconds,
/// `last_message_timestamp` in milliseconds.
pub struct Member {
    pub avatar_url: String,
    pub bot: bool,
    pub discriminator: u16,
    pub guild_id: u64,
    pub joined_voice_timestamp: Option<i64>,
    pub last_message_timestamp: Option<i64>,
    pub role_ids: HashSet<u64>,
    pub user_id: u64,
    pub username: String,
    pub voice_channel_id: Option<u64>,
    pub xp: i64,
}

/// The model of a `Member`.
pub struct MemberView {
    pub avatar_url: Seq<char>,
    pub bot: bool,
    pub discriminator: u16,
    pub guild_id: u64,
    pub joined_voice_timestamp: Option<i64>,
    pub last_message_timestamp: Option<i64>,
    pub role_ids: Set<u64>,
    pub user_id: u64,
    pub username: Seq<char>,
    pub voice_channel_id: Option<u64>,
    pub xp: i64,
}

impl View for Member {
    type V = MemberView;

    open spec fn view(&self) -> MemberView {
        MemberView {
            avatar_url: self.avatar_url@,
            bot: self.bot,
            discriminator: self.discriminator,
            guild_id: self.guild_id,
            joined_voice_timestamp: self.joined_voice_timestamp,
            last_message_timestamp: self.last_message_timestamp,
            role_ids: self.role_ids@,
            user_id: self.user_id,
            username: self.username@,
            voice_channel_id: self.voice_channel_id,
            xp: self.xp,
        }
    }
}

/// The fields of a member that an update replaces; an absent field is kept.
/// For a field that may itself be absent, `Some(None)` clears it.
pub struct MemberUpdate {
    pub avatar_url: Option<String>,
    pub discriminator: Option<u16>,
    pub joined_voice_timestamp: Option<Option<i64>>,
    pub last_message_timestamp: Option<Option<i64>>,
    pub role_ids: Option<HashSet<u64>>,
    pub username: Option<String>,
    pub voice_channel_id: Option<Option<u64>>,
    pub xp: Option<i64>,
}

/// The model of a `MemberUpdate`.
pub struct MemberUpdateView {
    pub avatar_url: Option<Seq<char>>,
    pub discriminator: Option<u16>,
    pub joined_voice_timestamp: Option<Option<i64>>,
    pub last_message_timestamp: Option<Option<i64>>,
    pub role_ids: Option<Set<u64>>,
    pub username: Option<Seq<char>>,
    pub voice_channel_id: Option<Option<u64>>,
    pub xp: Option<i64>,
}

impl View for MemberUpdate {
    type V = MemberUpdateView;

    open spec fn view(&self) -> MemberUpdateView {
        MemberUpdateView {
            avatar_url: match self.avatar_url {
                Some(url) => Some(url@),
                None => None,
            },
            discriminator: self.discriminator,
            joined_voice_timestamp: self.joined_voice_timestamp,
            last_message_timestamp: self.last_message_timestamp,
            role_ids: match self.role_ids {
                Some(ids) => Some(ids@),
                None => None,
            },
            username: match self.username {
                Some(name) => Some(name@),
                None => None,
            },
            voice_channel_id: self.voice_channel_id,
            xp: self.xp,
        }
    }
}

impl MemberUpdateView {
    /// The update that keeps every field.
    pub open spec fn keep() -> MemberUpdateView {
        MemberUpdateView {
            avatar_url: None,
            discriminator: None,
            joined_voice_timestamp: None,
            last_message_timestamp: None,
            role_ids: None,
            username: None,
            voice_channel_id: None,
            xp: None,
        }
    }
}

impl Default for MemberUpdate {
    /// The update that keeps every field.
    fn default() -> (update: MemberUpdate)
        ensures
            update@ == MemberUpdateView::keep(),
    {
        MemberUpdate {
            avatar_url: None,
            discriminator: None,
            joined_voice_timestamp: None,
            last_message_timestamp: None,
            role_ids: None,
            username: None,
            voice_channel_id: None,
            xp: None,
        }
    }
}

impl MemberView {
    /// Whether the member has a voice session exactly while it is recorded
    /// in a voice channel.
    pub open spec fn in_voice_consistently(self) -> bool {
        self.voice_channel_id is Some <==> self.joined_voice_timestamp is Some
    }

    /// The member after each field that `update` gives has replaced its own.
    /// Who the member is, and whether it is a bot, no update changes.
    pub open spec fn updated(self, update: MemberUpdateView) -> MemberView {
        MemberView {
            avatar_url: match update.avatar_url {
                Some(url) => url,
                None => self.avatar_url,
            },
            bot: self.bot,
            discriminator: match update.discriminator {
                Some(discriminator) => discriminator,
                None => self.discriminator,
            },
            guild_id: self.guild_id,
            joined_voice_timestamp: match update.joined_voice_timestamp {
                Some(timestamp) => timestamp,
                None => self.joined_voice_timestamp,
            },
            last_message_timestamp: match update.last_message_timestamp {
                Some(timestamp) => timestamp,
                None => self.last_message_timestamp,
            },
            role_ids: match update.role_ids {
                Some(ids) => ids,
                None => self.role_ids,
            },
            user_id: self.user_id,
            username: match update.username {
                Some(name) => name,
                None => self.username,
            },
            voice_channel_id: match update.voice_channel_id {
                Some(channel_id) => channel_id,
                None => self.voice_channel_id,
            },
            xp: match update.xp {
                Some(xp) => xp,
                None => self.xp,
            },
        }
    }
}

/// The kinds of channel that the platform has.
#[derive(Clone, Copy, Debug, PartialEq, Eq, Structural)]
pub enum ChannelKind {
    GuildText,
    Private,
    GuildVoice,
    Group,
    GuildCategory,
    GuildAnnouncement,
    AnnouncementThread,
    PublicThread,
    PrivateThread,
    GuildStageVoice,
    GuildDirectory,
    GuildForum,
    Unknown,
}

impl ChannelKind {
    /// Whether members can be in voice in a channel of this kind.
    pub open spec fn spec_is_voice(self) -> bool {
        self == ChannelKind::GuildVoice || self == ChannelKind::GuildStageVoice
    }

    /// Whether members can be in voice in a channel of this kind.
    pub fn is_voice(self) -> (voice: bool)
        ensures
            voice == self.spec_is_voice(),
    {
        match self {
            ChannelKind::GuildVoice => true,
            ChannelKind::GuildStageVoice => true,
            _ => false,
        }
    }
}

/// A channel as the platform announces it.
#[derive(Clone, Copy, Debug, PartialEq, Eq, Structural)]
pub struct ChannelInfo {
    pub id: u64,
    pub guild_id: Option<u64>,
    pub kind: ChannelKind,
}

/// A member as a guild's roster announces it, with what storage holds of it.
/// `last_message_timestamp` is in milliseconds.
pub struct RosterMember {
    pub avatar_url: String,
    pub bot: bool,
    pub discriminator: u16,
    pub last_message_timestamp: Option<i64>,
    pub role_ids: Vec<u64>,
    pub user_id: u64,
    pub username: String,
    pub voice_channel_id: Option<u64>,
    pub xp: i64,
}

/// The model of a `RosterMember`.
pub struct RosterMemberView {
    pub avatar_url: Seq<char>,
    pub bot: bool,
    pub discriminator: u16,
    pub last_message_timestamp: Option<i64>,
    pub role_ids: Seq<u64>,
    pub user_id: u64,
    pub username: Seq<char>,
    pub voice_channel_id: Option<u64>,
    pub xp: i64,
}

impl View for RosterMember {
    type V = RosterMemberView;

    open spec fn view(&self) -> RosterMemberView {
        RosterMemberView {
            avatar_url: self.avatar_url@,
            bot: self.bot,
            discriminator: self.discriminator,
            last_message_timestamp: self.last_message_timestamp,
            role_ids: self.role_ids@,
            user_id: self.user_id,
            username: self.username@,
            voice_channel_id: self.voice_channel_id,
            xp: self.xp,
        }
    }
}

/// The model of a roster: each entry by its model.
pub open spec fn roster_view(roster: Seq<RosterMember>) -> Seq<RosterMemberView> {
    Seq::new(roster.len(), |i: int| roster[i]@)
}

impl RosterMemberView {
    /// The member of `guild_id` that the roster entry describes, as it is
    /// first held: where the entry is in a voice channel, its session
    /// begins at `now`.
    pub open spec fn member(self, guild_id: u64, now: i64) -> MemberView {
        MemberView {
            avatar_url: self.avatar_url,
            bot: self.bot,
            discriminator: self.discriminator,
            guild_id,
            joined_voice_timestamp: if self.voice_channel_id is Some {
                Some(now)
            } else {
                None
            },
            last_message_timestamp: self.last_message_timestamp,
            role_ids: self.role_ids.to_set(),
            user_id: self.user_id,
            username: self.username,
            voice_channel_id: self.voice_channel_id,
            xp: self.xp,
        }
    }
}

} // verus!
