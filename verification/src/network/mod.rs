pub mod cipher;
pub mod shared_state;
pub mod session;
