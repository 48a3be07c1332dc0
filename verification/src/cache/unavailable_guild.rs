//! The guilds that the platform has reported as unavailable.

use crate::cache::Cache;
use vstd::prelude::*;

verus! {

broadcast use vstd::std_specs::hash::group_hash_axioms;

impl Cache {
    /// Marks the guild as unavailable.
    pub fn insert_unavailable_guild(&mut self, guild_id: u64)
        ensures
            final(self)@ == old(self)@.insert_unavailable_guild(guild_id),
    {
        self.unavailable_guilds.insert(guild_id);
    }

    /// Takes the guild's mark as unavailable off.
    pub fn remove_unavailable_guild(&mut self, guild_id: u64)
        ensures
            final(self)@ == old(self)@.remove_unavailable_guild(guild_id),
    {
        self.unavailable_guilds.remove(&guild_id);
    }

    /// Whether the guild is marked as unavailable.
    pub fn is_unavailable_guild(&self, guild_id: u64) -> (unavailable: bool)
        ensures
            unavailable == self@.unavailable_guilds.contains(guild_id),
    {
        self.unavailable_guilds.contains(&guild_id)
    }
}

} // verus!
