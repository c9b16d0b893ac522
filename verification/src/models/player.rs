//! Players in the world.
use crate::models::item::Inventory;
use vstd::prelude::*;

verus! {

/// A player character that is logged in.
#[derive(Debug)]
pub struct OnlinePlayer {
    pub object_id: i32,
    pub name: String,
    pub x: i32,
    pub y: i32,
    pub map_id: i16,
    pub level: i32,
    pub hp: i32,
    pub mp: i32,
    pub move_speed: i32,
    pub heading: i32,
    pub lawful: i32,
    pub sex: i32,
    pub title: String,
    pub gfx_id: i32,
    pub char_type: i32,
    pub clan_name: String,
    pub online: bool,
    pub inventory: Inventory,
}

impl OnlinePlayer {
    /// `self` and `other` hold the same data, field by field.
    pub open spec fn same_data(self, other: Self) -> bool {
        &&& self.object_id == other.object_id
        &&& self.name == other.name
        &&& self.x == other.x
        &&& self.y == other.y
        &&& self.map_id == other.map_id
        &&& self.level == other.level
        &&& self.hp == other.hp
        &&& self.mp == other.mp
        &&& self.move_speed == other.move_speed
        &&& self.heading == other.heading
        &&& self.lawful == other.lawful
        &&& self.sex == other.sex
        &&& self.title == other.title
        &&& self.gfx_id == other.gfx_id
        &&& self.char_type == other.char_type
        &&& self.clan_name == other.clan_name
        &&& self.online == other.online
        &&& self.inventory.same_data(other.inventory)
    }
}

impl Clone for OnlinePlayer {
    fn clone(&self) -> (p: Self)
        ensures
            p.same_data(*self),
    {
        OnlinePlayer {
            object_id: self.object_id,
            name: self.name.clone(),
            x: self.x,
            y: self.y,
            map_id: self.map_id,
            level: self.level,
            hp: self.hp,
            mp: self.mp,
            move_speed: self.move_speed,
            heading: self.heading,
            lawful: self.lawful,
            sex: self.sex,
            title: self.title.clone(),
            gfx_id: self.gfx_id,
            char_type: self.char_type,
            clan_name: self.clan_name.clone(),
            online: self.online,
            inventory: self.inventory.clone(),
        }
    }
}

} // verus!
