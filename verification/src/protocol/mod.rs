pub mod opcodes;
pub mod packet;
pub mod server;
