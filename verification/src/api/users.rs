//! The user lookup.

use vstd::prelude::*;

verus! {

/// What the user lookup answers with.
#[derive(Debug, Clone)]
pub struct UserInfo {
    pub id: i32,
    pub name: String,
}

/// The answer to a lookup of the user `id`: the id itself, under a fixed
/// name.
pub fn get_user(id: i32) -> (info: UserInfo)
    ensures
        info.id == id,
        info.name@ == "John Doe"@,
{
    UserInfo { id, name: String::from_str("John Doe") }
}

} // verus!
