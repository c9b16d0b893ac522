//! Populating the world from the spawn lists.
use crate::models::npc::{NpcTemplate, SpawnInfo};
use crate::network::shared_state::WorldState;
use std::collections::HashMap;
use vstd::prelude::*;

verus! {

impl WorldState {
    /// Monster spawning from spawn lists: not done yet, the world is left as it is.
    pub fn spawn_monsters(&mut self, _templates: &HashMap<i32, NpcTemplate>, _spawns: Vec<SpawnInfo>)
        ensures
            *final(self) == *old(self),
    {
    }

    /// NPC spawning from spawn lists: not done yet, the world is left as it is.
    pub fn spawn_npcs(&mut self, _templates: &HashMap<i32, NpcTemplate>, _spawns: Vec<SpawnInfo>)
        ensures
            *final(self) == *old(self),
    {
    }
}

} // verus!
