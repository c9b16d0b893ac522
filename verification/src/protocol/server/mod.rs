pub mod combat;
pub mod movement;
pub mod npc_pack;
pub mod inventory;
