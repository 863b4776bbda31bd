//! Membership analytics of Roblox groups.
use vstd::prelude::*;

use crate::roblox::id::GroupId;

verus! {

/// A snapshot of a group; `timestamp` is in seconds since the Unix epoch.
#[derive(Debug)]
pub struct AnalyticsGroup {
    pub group_id: GroupId,
    pub roles: Vec<AnalyticsRole>,
    pub member_count: i64,
    pub timestamp: i64,
}

#[derive(Debug)]
pub struct AnalyticsRole {
    pub id: i64,
    pub rank: u32,
    pub member_count: i64,
}

} // verus!
