//! Custom workflows: graphs of actions that a custom command runs.
use vstd::prelude::*;

pub mod action;

use crate::id::CommandId;
use crate::text::signed_decimal_string;

verus! {

#[derive(Clone, Debug)]
pub struct Workflow {
    pub name: String,
    pub description: String,
    pub nodes: Vec<WorkflowNode>,
    pub command: CommandId,
}

/// One action of a workflow. `next` maps an outcome of the action to the id
/// of the node that runs after it.
#[derive(Clone, Debug)]
pub struct WorkflowNode {
    pub id: usize,
    pub name: String,
    pub next: Vec<(String, usize)>,
    pub inputs: Vec<ActionInput>,
    pub outputs: Vec<ActionOutput>,
    pub kind: ActionType,
    pub metadata: ActionMetadata,
}

#[derive(Clone, Copy, Debug, PartialEq, Eq, Structural)]
pub enum ActionType {
    Start,
    SendMessage,
    JoinString,
    GetDatastoreEntry,
    Add,
    UpdateDatastoreEntry,
    GetRoWifiUser,
    PublishUniverseMessage,
    GetUsernameFromId,
    GetIdFromUsername,
}

#[derive(Clone, Debug)]
pub enum ActionMetadata {
    Start,
    SendMessage(action::SendMessage),
    JoinString,
    GetDatastoreEntry,
    Add,
    UpdateDatastoreEntry,
    GetRoWifiUser,
    PublishUniverseMessage,
    GetUsernameFromId,
    GetIdFromUsername,
}

#[derive(Clone, Debug)]
pub struct Field {
    pub name: String,
    pub value: Value,
}

#[derive(Clone, Debug)]
pub struct ActionInput {
    pub name: String,
    pub description: String,
    pub source: ActionInputSource,
    pub kind: ActionInputSourceType,
}

#[derive(Clone, Copy, Debug, PartialEq, Eq, Structural)]
pub enum ActionInputSourceType {
    Static,
    Action,
    External,
}

/// Where an input's value comes from.
#[derive(Clone, Debug)]
pub enum ActionInputSource {
    /// A value written into the workflow.
    Static(Value),
    /// An output of an earlier node.
    Action { action_id: usize, output_name: String },
    /// An argument of the command that runs the workflow.
    External(ValueType),
}

#[derive(Clone, Debug)]
pub struct ActionOutput {
    pub name: String,
    pub value: ValueType,
}

#[derive(Debug)]
pub enum Value {
    String(String),
    Number(i64),
}

#[derive(Clone, Copy, Debug, PartialEq, Eq, Structural)]
pub enum ValueType {
    Number,
    String,
}

impl Value {
    /// The text of a value (its `Display` form): a string as it is, a number
    /// in decimal.
    pub open spec fn text(self) -> Seq<char> {
        match self {
            Value::String(s) => s@,
            Value::Number(n) => crate::text::signed_decimal(n as int),
        }
    }

    pub fn to_text(&self) -> (s: String)
        ensures
            s@ == self.text(),
    {
        match self {
            Value::String(s) => s.clone(),
            Value::Number(n) => signed_decimal_string(*n),
        }
    }
}

impl Clone for Value {
    fn clone(&self) -> (v: Self)
        ensures
            v == *self,
    {
        match self {
            Value::String(s) => Value::String(s.clone()),
            Value::Number(n) => Value::Number(*n),
        }
    }
}

} // verus!
