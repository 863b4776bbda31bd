use rowifi::events::new::{event_audit_log, log_event, EventLogArguments, EventLogError, EventLogRow};
use rowifi::events::types::add::{add_event_type, AddEventTypeError, EventTypeArguments};
use rowifi::id::{GuildId, UserId};
use rowifi::models::audit_log::{AuditLogData, AuditLogKind};
use rowifi::models::events::EventType;
use rowifi::roblox::id::UserId as RobloxUserId;

fn training() -> EventType {
    EventType { id: 1, name: "Training".to_string(), disabled: false }
}

#[test]
fn events_need_a_known_type() {
    let args = EventLogArguments {
        host_id: RobloxUserId(5),
        event_type: 2,
        attendees: vec![RobloxUserId(6)],
        notes: None,
    };
    assert!(matches!(log_event(GuildId(1), &[training()], args, 100), Err(EventLogError::InvalidEventType)));
}

#[test]
fn logged_event_carries_its_arguments() {
    let args = EventLogArguments {
        host_id: RobloxUserId(5),
        event_type: 1,
        attendees: vec![RobloxUserId(6), RobloxUserId(7)],
        notes: Some("good".to_string()),
    };
    let Ok(event) = log_event(GuildId(1), &[training()], args, 100) else {
        panic!("the type exists");
    };
    assert_eq!(event.event_type, 1);
    assert_eq!(event.guild_event_id, 0);
    assert_eq!(event.timestamp, 100);
    assert_eq!(event.attendees, vec![RobloxUserId(6), RobloxUserId(7)]);
    let log = event_audit_log(GuildId(1), UserId(9), EventLogRow { guild_event_id: 12 }, 101);
    assert!(matches!(log.kind, AuditLogKind::BindDelete));
    assert!(matches!(log.metadata, AuditLogData::EventLog(ref e) if e.guild_event_id == 12));
}

#[test]
fn event_type_ids_are_unique() {
    let args = EventTypeArguments { id: 1, name: "Again".to_string() };
    assert!(matches!(add_event_type(vec![training()], args), Err(AddEventTypeError::IdAlreadyExists)));
    let args = EventTypeArguments { id: 2, name: "Shift".to_string() };
    let Ok((added, stored)) = add_event_type(vec![training()], args) else {
        panic!("the id is free");
    };
    assert_eq!(added.event.name, "Shift");
    assert!(!added.event.disabled);
    assert_eq!(stored.len(), 2);
    assert_eq!(stored[1].id, 2);
}
