pub mod config;
pub mod data;
pub mod db;
pub mod ecs;
pub mod handler;
pub mod models;
pub mod network;
pub mod protocol;
pub mod world;

use vstd::prelude::*;

verus! {

/// Number of character slots an account has unless told otherwise.
pub const DEFAULT_CHARACTER_SLOT: u8 = 8;

/// Address the server listens on.
#[derive(Debug, Clone)]
pub struct NetworkConfig {
    pub host: String,
    pub port: u16,
}

/// Where the database is.
#[derive(Debug, Clone)]
pub struct DatabaseConfig {
    pub url: String,
}

/// The game's name.
#[derive(Debug, Clone)]
pub struct GameConfig {
    pub name: String,
}

} // verus!
