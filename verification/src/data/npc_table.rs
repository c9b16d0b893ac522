//! NPC templates.
use crate::models::npc::NpcTemplate;
use std::collections::HashMap;
use vstd::prelude::*;

verus! {

/// NPC templates keyed by NPC id.
pub struct NpcTable {
    pub templates: HashMap<i32, NpcTemplate>,
}

} // verus!
