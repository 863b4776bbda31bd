//! Roblox group models.
use vstd::prelude::*;

use super::id::{GroupId, RoleId};

verus! {

/// A group as seen from one of its members.
#[derive(Clone, Debug)]
pub struct PartialGroup {
    pub id: GroupId,
    pub name: String,
    pub member_count: i64,
}

/// A rank (role) of a group.
#[derive(Clone, Debug)]
pub struct PartialRank {
    pub id: RoleId,
    pub name: Option<String>,
    pub rank: u32,
    pub member_count: Option<i64>,
}

/// A group from the Open Cloud API.
#[derive(Clone, Debug)]
pub struct Group {
    pub id: String,
    pub display_name: String,
}

/// A user's membership in a group: the group and the rank held there.
#[derive(Clone, Debug)]
pub struct GroupUserRole {
    pub group: PartialGroup,
    pub role: PartialRank,
}

/// A role of a group from the Open Cloud API.
#[derive(Clone, Debug)]
pub struct GroupRole {
    pub id: String,
    pub rank: u32,
    pub display_name: String,
    pub member_count: Option<i64>,
}

} // verus!
