use vstd::prelude::*;

use crate::error::RoError;
use crate::id::{GuildId, UserId};
use crate::models::audit_log::{AuditLog, AuditLogData, AuditLogKind, EventLog as AuditEventLog};
use crate::models::events::{EventLog, EventType};
use crate::roblox::id::UserId as RobloxUserId;

verus! {

pub struct EventLogArguments {
    pub host_id: RobloxUserId,
    pub event_type: u32,
    pub attendees: Vec<RobloxUserId>,
    pub notes: Option<String>,
}

pub enum EventLogError {
    InvalidEventType,
    Other(RoError),
}

impl From<RoError> for EventLogError {
    fn from(err: RoError) -> (r: Self) {
        EventLogError::Other(err)
    }
}

impl vstd::std_specs::convert::FromSpecImpl<RoError> for EventLogError {
    open spec fn obeys_from_spec() -> bool {
        true
    }

    open spec fn from_spec(err: RoError) -> Self {
        EventLogError::Other(err)
    }
}

/// The number the database gave the newly stored event within its guild.
pub struct EventLogRow {
    pub guild_event_id: i64,
}

/// Whether one of the guild's event types has the id `id`.
pub open spec fn has_event_type(event_types: Seq<EventType>, id: u32) -> bool {
    exists|i: int| 0 <= i < event_types.len() && event_types[i].id == id
}

fn find_event_type(event_types: &[EventType], id: u32) -> (found: bool)
    ensures
        found == has_event_type(event_types@, id),
{
    let mut i: usize = 0;
    while i < event_types.len()
        invariant
            i <= event_types@.len(),
            forall|j: int| 0 <= j < i ==> event_types@[j].id != id,
        decreases event_types@.len() - i,
    {
        if event_types[i].id == id {
            return true;
        }
        i = i + 1;
    }
    false
}

/// The event to store for the arguments, logged at `timestamp` (seconds since
/// the Unix epoch). Its number within the guild is left at 0 until the
/// database assigns one. An event whose type the guild does not have is
/// refused. Attendees are stored as given: no test of them is made.
pub fn log_event(guild_id: GuildId, event_types: &[EventType], args: EventLogArguments, timestamp: i64) -> (r:
    Result<EventLog, EventLogError>)
    ensures
        r is Ok <==> has_event_type(event_types@, args.event_type),
        r is Err ==> r matches Err(EventLogError::InvalidEventType),
        r matches Ok(event) ==> event == (EventLog {
            guild_id,
            event_type: args.event_type as i32,
            guild_event_id: 0,
            host_id: args.host_id,
            timestamp,
            attendees: args.attendees,
            notes: args.notes,
        }),
{
    if !find_event_type(event_types, args.event_type) {
        return Err(EventLogError::InvalidEventType);
    }
    Ok(EventLog {
        guild_id,
        event_type: args.event_type as i32,
        guild_event_id: 0,
        host_id: args.host_id,
        timestamp,
        attendees: args.attendees,
        notes: args.notes,
    })
}

/// The audit log entry written after an event was stored under the number
/// `row.guild_event_id`.
pub fn event_audit_log(guild_id: GuildId, author_id: UserId, row: EventLogRow, timestamp: i64) -> (log:
    AuditLog)
    ensures
        log == (AuditLog {
            kind: AuditLogKind::BindDelete,
            guild_id: Some(guild_id),
            user_id: Some(author_id),
            timestamp,
            metadata: AuditLogData::EventLog(AuditEventLog { guild_event_id: row.guild_event_id }),
        }),
{
    AuditLog {
        kind: AuditLogKind::BindDelete,
        guild_id: Some(guild_id),
        user_id: Some(author_id),
        timestamp,
        metadata: AuditLogData::EventLog(AuditEventLog { guild_event_id: row.guild_event_id }),
    }
}

} // verus!
