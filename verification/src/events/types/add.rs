use vstd::prelude::*;

use crate::error::RoError;
use crate::models::events::EventType;

verus! {

#[derive(Debug)]
pub struct AddEventType {
    pub event: EventType,
}

#[derive(Debug)]
pub struct EventTypeArguments {
    pub id: u32,
    pub name: String,
}

pub enum AddEventTypeError {
    IdAlreadyExists,
    Generic(RoError),
}

impl From<RoError> for AddEventTypeError {
    fn from(err: RoError) -> (r: Self) {
        AddEventTypeError::Generic(err)
    }
}

impl vstd::std_specs::convert::FromSpecImpl<RoError> for AddEventTypeError {
    open spec fn obeys_from_spec() -> bool {
        true
    }

    open spec fn from_spec(err: RoError) -> Self {
        AddEventTypeError::Generic(err)
    }
}

/// No two of the event types share an id.
pub open spec fn distinct_event_type_ids(types: Seq<EventType>) -> bool {
    forall|i: int, j: int| 0 <= i < j < types.len() ==> types[i].id != types[j].id
}

/// Adds an enabled event type with the requested id and name at the end of
/// the guild's event types, unless one with that id exists already. Returns
/// the new type and the event types to store.
pub fn add_event_type(existing_event_types: Vec<EventType>, args: EventTypeArguments) -> (r: Result<
    (AddEventType, Vec<EventType>),
    AddEventTypeError,
>)
    ensures
        r is Err <==> exists|i: int|
            0 <= i < existing_event_types@.len() && existing_event_types@[i].id == args.id,
        r is Err ==> r matches Err(AddEventTypeError::IdAlreadyExists),
        r matches Ok((added, stored)) ==> {
            &&& added.event == (EventType { id: args.id, name: args.name, disabled: false })
            &&& stored@ == existing_event_types@.push(added.event)
        },
        distinct_event_type_ids(existing_event_types@) ==> (r matches Ok((_, stored))
            ==> distinct_event_type_ids(stored@)),
{
    let mut i: usize = 0;
    while i < existing_event_types.len()
        invariant
            i <= existing_event_types@.len(),
            forall|j: int| 0 <= j < i ==> existing_event_types@[j].id != args.id,
        decreases existing_event_types@.len() - i,
    {
        if existing_event_types[i].id == args.id {
            return Err(AddEventTypeError::IdAlreadyExists);
        }
        i = i + 1;
    }
    let new_event_type = EventType { id: args.id, name: args.name, disabled: false };
    let mut stored = existing_event_types;
    stored.push(new_event_type.clone());
    Ok((AddEventType { event: new_event_type }, stored))
}

} // verus!
