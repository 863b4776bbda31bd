//! Roblox users.
use vstd::prelude::*;

use super::id::UserId;

verus! {

/// A Roblox user. `create_time` is the account's creation time in seconds
/// since the Unix epoch, when the API reports it.
#[derive(Clone, Debug)]
pub struct PartialUser {
    pub create_time: Option<i64>,
    pub id: UserId,
    pub name: String,
    pub display_name: Option<String>,
}

/// The user that a Roblox OAuth token belongs to.
#[derive(Clone, Debug)]
pub struct OAuthUser {
    pub sub: String,
    pub name: String,
}

} // verus!
