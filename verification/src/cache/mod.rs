//! The entity cache: guilds, voice channels and members by their
//! identifiers, each as a shared snapshot that no update changes.

pub mod channel;
pub mod guild;
pub mod laws;
pub mod member;
pub mod model;
pub mod unavailable_guild;

use crate::cache::model::CacheView;
use crate::sets::{gathered, lemma_gather_step, lemma_gathered_all, lemma_keys_walk, walks};
use crate::types::{Channel, Guild, Member};
use std::collections::{HashMap, HashSet};
use std::sync::Arc;
use vstd::prelude::*;
use vstd::std_specs::iter::IteratorSpec;

verus! {

broadcast use vstd::std_specs::hash::group_hash_axioms;

/// The cache. Members are held under one key made of their guild's and
/// their own identifier.
pub struct Cache {
    pub(crate) channels: HashMap<u64, Arc<Channel>>,
    pub(crate) guilds: HashMap<u64, Arc<Guild>>,
    pub(crate) members: HashMap<u128, Arc<Member>>,
    pub(crate) unavailable_guilds: HashSet<u64>,
}

/// The key under which the member `user_id` of the guild `guild_id` is held.
pub open spec fn spec_member_key(guild_id: u64, user_id: u64) -> u128 {
    (guild_id as u128 * 0x1_0000_0000_0000_0000 + user_id as u128) as u128
}

/// The key under which the member `user_id` of the guild `guild_id` is held.
/// Two members have the same key only if they are the same member.
pub(crate) fn member_key(guild_id: u64, user_id: u64) -> (key: u128)
    ensures
        key == spec_member_key(guild_id, user_id),
        forall|g: u64, u: u64| spec_member_key(g, u) == key ==> g == guild_id && u == user_id,
{
    guild_id as u128 * 0x1_0000_0000_0000_0000 + user_id as u128
}

/// A key tells the guild and the member that it was made of.
pub proof fn lemma_member_key_parts(guild_id: u64, user_id: u64)
    ensures
        spec_member_key(guild_id, user_id) / 0x1_0000_0000_0000_0000 == guild_id,
        spec_member_key(guild_id, user_id) % 0x1_0000_0000_0000_0000 == user_id,
{
}

impl View for Cache {
    type V = CacheView;

    closed spec fn view(&self) -> CacheView {
        CacheView {
            channels: self.channels@.map_values(|c: Arc<Channel>| c@),
            guilds: self.guilds@.map_values(|g: Arc<Guild>| g@),
            members: Map::new(
                |k: (u64, u64)| self.members@.contains_key(spec_member_key(k.0, k.1)),
                |k: (u64, u64)| self.members@[spec_member_key(k.0, k.1)]@,
            ),
            unavailable_guilds: self.unavailable_guilds@,
        }
    }
}

impl Cache {
    /// Whether every snapshot is held under its own identifiers, every
    /// member has a voice session exactly while it is recorded in a voice
    /// channel, and every guild has a valid level-role table.
    pub open spec fn wf(&self) -> bool {
        self@.wf()
    }

    /// The empty cache.
    pub fn new() -> (cache: Cache)
        ensures
            cache@ == CacheView::empty(),
            cache.wf(),
    {
        let cache = Cache {
            channels: HashMap::new(),
            guilds: HashMap::new(),
            members: HashMap::new(),
            unavailable_guilds: HashSet::new(),
        };
        assert(cache@.channels =~= Map::empty());
        assert(cache@.guilds =~= Map::empty());
        assert(cache@.members =~= Map::empty());
        cache
    }

    /// Holds `channel` under its identifier, in place of what was there.
    pub(crate) fn put_channel(&mut self, channel: Channel)
        ensures
            final(self)@ == (CacheView {
                channels: old(self)@.channels.insert(channel.channel_id, channel@),
                ..old(self)@
            }),
    {
        let ghost model = channel@;
        let ghost id = channel.channel_id;
        self.channels.insert(channel.channel_id, Arc::new(channel));
        assert(self@.channels =~= old(self)@.channels.insert(id, model));
    }

    /// Holds `guild` under its identifier, in place of what was there.
    pub(crate) fn put_guild(&mut self, guild: Guild)
        ensures
            final(self)@ == (CacheView {
                guilds: old(self)@.guilds.insert(guild.guild_id, guild@),
                ..old(self)@
            }),
    {
        let ghost model = guild@;
        let ghost id = guild.guild_id;
        self.guilds.insert(guild.guild_id, Arc::new(guild));
        assert(self@.guilds =~= old(self)@.guilds.insert(id, model));
    }

    /// Holds `member` under its identifiers, in place of what was there.
    pub(crate) fn put_member(&mut self, member: Member)
        ensures
            final(self)@ == (CacheView {
                members: old(self)@.members.insert((member.guild_id, member.user_id), member@),
                ..old(self)@
            }),
    {
        let ghost model = member@;
        let ghost id = (member.guild_id, member.user_id);
        let key = member_key(member.guild_id, member.user_id);
        self.members.insert(key, Arc::new(member));
        assert(self@.members =~= old(self)@.members.insert(id, model));
    }

    /// The identifiers of the channels that are held as channels of the
    /// guild.
    pub(crate) fn channel_ids_of(&self, guild_id: u64) -> (owned: Vec<u64>)
        ensures
            forall|c: u64|
                owned@.contains(c) <==> self@.channels.contains_key(c) && self@.channels[c].guild_id
                    == guild_id,
    {
        let ghost keys = self.channels.keys().remaining();
        let ghost wanted = |c: u64| self.channels@.contains_key(c) && self.channels@[c]@.guild_id == guild_id;
        proof {
            lemma_keys_walk(&self.channels);
        }
        let mut owned: Vec<u64> = Vec::new();
        for id in it: self.channels.keys()
            invariant
                it.seq() == keys,
                walks(keys, self.channels@.dom()),
                wanted == |c: u64| self.channels@.contains_key(c) && self.channels@[c]@.guild_id == guild_id,
                gathered(keys, it.index(), owned@, wanted),
        {
            let ghost before = owned@;
            match self.channels.get(id) {
                Some(channel) => {
                    if channel.guild_id == guild_id {
                        owned.push(*id);
                    }
                },
                None => {},
            }
            proof {
                lemma_gather_step(keys, self.channels@.dom(), it.index(), before, owned@, wanted);
            }
        }
        proof {
            lemma_gathered_all(keys, self.channels@.dom(), owned@, wanted);
        }
        owned
    }

    /// The identifiers of the members that are held as members of the
    /// guild.
    pub(crate) fn member_ids_of(&self, guild_id: u64) -> (owned: Vec<u64>)
        ensures
            forall|u: u64| owned@.contains(u) <==> self@.members.contains_key((guild_id, u)),
    {
        let ghost keys = self.members.keys().remaining();
        let ghost wanted = |key: u128| key / 0x1_0000_0000_0000_0000 == guild_id;
        proof {
            lemma_keys_walk(&self.members);
        }
        let mut owned_keys: Vec<u128> = Vec::new();
        let mut owned: Vec<u64> = Vec::new();
        for key in it: self.members.keys()
            invariant
                it.seq() == keys,
                walks(keys, self.members@.dom()),
                wanted == |key: u128| key / 0x1_0000_0000_0000_0000 == guild_id,
                gathered(keys, it.index(), owned_keys@, wanted),
                owned@.len() == owned_keys@.len(),
                forall|i: int|
                    0 <= i < owned@.len() ==> #[trigger] owned_keys@[i] == spec_member_key(guild_id, owned@[i]),
        {
            let ghost before = owned_keys@;
            if *key / 0x1_0000_0000_0000_0000 == guild_id as u128 {
                owned_keys.push(*key);
                owned.push((*key % 0x1_0000_0000_0000_0000) as u64);
            }
            proof {
                lemma_gather_step(keys, self.members@.dom(), it.index(), before, owned_keys@, wanted);
            }
        }
        proof {
            lemma_gathered_all(keys, self.members@.dom(), owned_keys@, wanted);
            assert forall|u: u64| owned@.contains(u) <==> self@.members.contains_key((guild_id, u)) by {
                lemma_member_key_parts(guild_id, u);
                if owned@.contains(u) {
                    let i = choose|i: int| 0 <= i < owned@.len() && owned@[i] == u;
                    assert(owned_keys@[i] == spec_member_key(guild_id, u));
                    assert(owned_keys@.contains(owned_keys@[i]));
                }
                if self@.members.contains_key((guild_id, u)) {
                    assert(owned_keys@.contains(spec_member_key(guild_id, u)));
                    let i = choose|i: int|
                        0 <= i < owned_keys@.len() && owned_keys@[i] == spec_member_key(guild_id, u);
                    lemma_member_key_parts(guild_id, owned@[i]);
                    assert(owned@[i] == u);
                }
            }
        }
        owned
    }

    /// No longer holds a channel under `channel_id`; what was held is
    /// returned.
    pub(crate) fn take_channel(&mut self, channel_id: u64) -> (taken: Option<Arc<Channel>>)
        ensures
            final(self)@ == (CacheView {
                channels: old(self)@.channels.remove(channel_id),
                ..old(self)@
            }),
            taken is Some <==> old(self)@.channels.contains_key(channel_id),
            taken matches Some(c) ==> c@ == old(self)@.channels[channel_id],
    {
        let taken = self.channels.remove(&channel_id);
        assert(self@.channels =~= old(self)@.channels.remove(channel_id));
        taken
    }

    /// No longer holds a guild under `guild_id`; what was held is returned.
    pub(crate) fn take_guild(&mut self, guild_id: u64) -> (taken: Option<Arc<Guild>>)
        ensures
            final(self)@ == (CacheView { guilds: old(self)@.guilds.remove(guild_id), ..old(self)@ }),
            taken is Some <==> old(self)@.guilds.contains_key(guild_id),
            taken matches Some(g) ==> g@ == old(self)@.guilds[guild_id],
    {
        let taken = self.guilds.remove(&guild_id);
        assert(self@.guilds =~= old(self)@.guilds.remove(guild_id));
        taken
    }

    /// No longer holds a member under `guild_id` and `user_id`; what was
    /// held is returned.
    pub(crate) fn take_member(&mut self, guild_id: u64, user_id: u64) -> (taken: Option<Arc<Member>>)
        ensures
            final(self)@ == (CacheView {
                members: old(self)@.members.remove((guild_id, user_id)),
                ..old(self)@
            }),
            taken is Some <==> old(self)@.members.contains_key((guild_id, user_id)),
            taken matches Some(m) ==> m@ == old(self)@.members[(guild_id, user_id)],
    {
        let key = member_key(guild_id, user_id);
        let taken = self.members.remove(&key);
        assert(self@.members =~= old(self)@.members.remove((guild_id, user_id)));
        taken
    }
}

} // verus!
