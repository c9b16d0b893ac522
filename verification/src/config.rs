//! Server settings.
use vstd::prelude::*;

verus! {

/// One item of the starter gear.
#[derive(Debug, Clone, Copy)]
pub struct Item {
    pub item_id: i32,
    pub gfx_id: Option<i32>,
    pub count: u32,
    pub enchant_level: u8,
}

impl Default for Item {
    /// Item 0, without graphic, count 0, not enchanted.
    fn default() -> (i: Self)
        ensures
            i.item_id == 0,
            i.gfx_id == None::<i32>,
            i.count == 0,
            i.enchant_level == 0,
    {
        Item { item_id: 0, gfx_id: None, count: 0, enchant_level: 0 }
    }
}

/// Address the server listens on.
#[derive(Debug, Clone)]
pub struct Server {
    pub host: String,
    pub port: u16,
}

/// The items every new character receives.
#[derive(Debug, Clone)]
pub struct StarterGear {
    pub items: Vec<Item>,
}

/// Where the database is.
#[derive(Debug, Clone)]
pub struct DatabaseConfig {
    pub url: String,
}

} // verus!
