pub mod item;
pub mod npc;
pub mod player;
