//! Events that a guild logs (trainings, shifts, ...).
use vstd::prelude::*;

use crate::id::GuildId;
use crate::roblox::id::UserId as RobloxUserId;

verus! {

#[derive(Debug)]
pub struct EventType {
    pub id: u32,
    pub name: String,
    pub disabled: bool,
}

impl Clone for EventType {
    fn clone(&self) -> (r: Self)
        ensures
            r == *self,
    {
        EventType { id: self.id, name: self.name.clone(), disabled: self.disabled }
    }
}

/// A logged event; `timestamp` is in seconds since the Unix epoch.
#[derive(Clone, Debug)]
pub struct EventLog {
    pub guild_id: GuildId,
    pub event_type: i32,
    pub guild_event_id: i64,
    pub host_id: RobloxUserId,
    pub timestamp: i64,
    pub attendees: Vec<RobloxUserId>,
    pub notes: Option<String>,
}

} // verus!
