pub mod item_handler;
