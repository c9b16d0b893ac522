//! NPCs: spawn points, templates and NPCs in the world.
use vstd::prelude::*;

verus! {

/// A place where NPCs of one template appear.
#[derive(Debug, Clone)]
pub struct SpawnInfo {
    pub spawn_id: i32,
    pub count: i32,
    pub npc_template_id: i32,
    pub loc_x: i32,
    pub loc_y: i32,
    pub map_id: i16,
    pub heading: i32,
    pub randomx: i32,
    pub randomy: i32,
    pub min_respawn_delay: i32,
    pub max_respawn_delay: i32,
    pub movement_distance: i32,
}

/// What every NPC of one kind has in common.
#[derive(Debug)]
pub struct NpcTemplate {
    pub npc_id: i32,
    pub name: String,
    pub nameid: String,
    pub note: Option<String>,
    pub level: i32,
    pub hp: i32,
    pub mp: i32,
    pub ac: i32,
    pub str: i32,
    pub con: i32,
    pub dex: i32,
    pub int: i32,
    pub wis: i32,
    pub cha: i32,
    pub gfxid: i32,
    pub light_size: i32,
    pub exp: i32,
    pub lawful: i32,
}

impl Clone for NpcTemplate {
    fn clone(&self) -> (t: Self)
        ensures
            t == *self,
    {
        let note = match &self.note {
            Some(n) => Some(n.clone()),
            None => None,
        };
        NpcTemplate {
            npc_id: self.npc_id,
            name: self.name.clone(),
            nameid: self.nameid.clone(),
            note,
            level: self.level,
            hp: self.hp,
            mp: self.mp,
            ac: self.ac,
            str: self.str,
            con: self.con,
            dex: self.dex,
            int: self.int,
            wis: self.wis,
            cha: self.cha,
            gfxid: self.gfxid,
            light_size: self.light_size,
            exp: self.exp,
            lawful: self.lawful,
        }
    }
}

/// One NPC in the world.
#[derive(Debug)]
pub struct OnlineNpc {
    pub object_id: i32,
    pub template_id: i32,
    pub x: i32,
    pub y: i32,
    pub map_id: i16,
    pub heading: i32,
    pub cur_hp: i32,
    pub template: NpcTemplate,
}

impl Clone for OnlineNpc {
    fn clone(&self) -> (n: Self)
        ensures
            n == *self,
    {
        OnlineNpc {
            object_id: self.object_id,
            template_id: self.template_id,
            x: self.x,
            y: self.y,
            map_id: self.map_id,
            heading: self.heading,
            cur_hp: self.cur_hp,
            template: self.template.clone(),
        }
    }
}

} // verus!
