pub mod account_table;
pub mod beginner_item_table;
pub mod droplist;
pub mod item;
pub mod item_table;
pub mod npc_table;

pub use self::item_table::ItemTable;
