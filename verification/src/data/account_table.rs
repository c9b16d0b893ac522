//! Accounts.
use vstd::prelude::*;

verus! {

/// One row of the accounts table.
#[derive(Debug, Clone)]
pub struct AccountData {
    pub login: String,
    pub password: String,
    pub access_level: i32,
    pub online: i32,
    pub banned: i32,
    pub character_slot: i32,
    pub online_status: i32,
    pub birthday: i32,
}

} // verus!
