use rowifi::custom::execute::{
    can_run_node, execute_node, fill_message, follow_outcome, has_all_inputs, has_execution_record, prepare_node, resume_datastore_node, resume_node, set_value,
    workflow_start, DatastoreEntry, DatastoreReply, ExecutionContext, NodeReply, NodeRequest, NodeStep,
    UserLookupError, WorkflowExecutionError, WorkflowExecutionNodeResult, WorkflowNodeExecution,
    WorkflowNodeExecutionError,
};
use rowifi::custom::ends::{try_validate_workflow, validation_ends};
use rowifi::custom::json::{JsonNumber, JsonValue};
use rowifi::custom::{
    validate_node, validate_workflow, ValidationContext, WorkflowNodeValidation, WorkflowNodeValidationError,
    WorkflowValidationError,
};
use rowifi::id::{ChannelId, CommandId, GuildId};
use rowifi::models::custom::action::SendMessage;
use rowifi::models::custom::{
    ActionInput, ActionInputSource, ActionInputSourceType, ActionMetadata, ActionOutput, ActionType, Value,
    ValueType, Workflow, WorkflowNode,
};

fn input(name: &str, source: ActionInputSource) -> ActionInput {
    let kind = match source {
        ActionInputSource::Static(_) => ActionInputSourceType::Static,
        ActionInputSource::Action { .. } => ActionInputSourceType::Action,
        ActionInputSource::External(_) => ActionInputSourceType::External,
    };
    ActionInput { name: name.to_string(), description: String::new(), source, kind }
}

fn output(name: &str, value: ValueType) -> ActionOutput {
    ActionOutput { name: name.to_string(), value }
}

fn node(id: usize, kind: ActionType, metadata: ActionMetadata, inputs: Vec<ActionInput>, outputs: Vec<ActionOutput>, next: Vec<(&str, usize)>) -> WorkflowNode {
    WorkflowNode {
        id,
        name: format!("node{id}"),
        next: next.into_iter().map(|(k, v)| (k.to_string(), v)).collect(),
        inputs,
        outputs,
        kind,
        metadata,
    }
}

fn start_and_add() -> Workflow {
    let start = node(
        0,
        ActionType::Start,
        ActionMetadata::Start,
        vec![input("a", ActionInputSource::External(ValueType::Number))],
        vec![],
        vec![("next", 1)],
    );
    let add = node(
        1,
        ActionType::Add,
        ActionMetadata::Add,
        vec![
            input("x", ActionInputSource::Action { action_id: 0, output_name: "a".to_string() }),
            input("y", ActionInputSource::Static(Value::Number(5))),
        ],
        vec![output("sum", ValueType::Number)],
        vec![],
    );
    Workflow { name: "w".to_string(), description: String::new(), nodes: vec![start, add], command: CommandId(1) }
}

fn validation_context() -> ValidationContext {
    ValidationContext {
        nodes: vec![
            WorkflowNodeValidation { id: 0, inputs: vec![], outputs: vec![] },
            WorkflowNodeValidation { id: 1, inputs: vec![], outputs: vec![] },
        ],
    }
}

#[test]
fn a_sound_workflow_validates() {
    let mut ctx = validation_context();
    assert!(validate_workflow(&start_and_add(), &mut ctx).is_ok());
    assert_eq!(ctx.nodes[0].outputs, vec!["a".to_string()]);
    assert_eq!(ctx.nodes[1].inputs, vec!["x".to_string(), "y".to_string()]);
    assert_eq!(ctx.nodes[1].outputs, vec!["sum".to_string()]);
}

#[test]
fn validation_finds_missing_outputs() {
    let mut workflow = start_and_add();
    workflow.nodes[1].inputs[0] = input("x", ActionInputSource::Action { action_id: 0, output_name: "b".to_string() });
    let mut ctx = validation_context();
    match validate_workflow(&workflow, &mut ctx) {
        Err(WorkflowValidationError::OutputNotFound { id, name, source_id, source_name }) => {
            assert_eq!((id, name.as_str(), source_id, source_name.as_str()), (1, "x", 0, "b"));
        },
        _ => panic!("the output is missing"),
    }
}

#[test]
fn validation_needs_a_start_node() {
    let mut workflow = start_and_add();
    workflow.nodes.remove(0);
    let mut ctx = validation_context();
    assert!(matches!(
        validate_workflow(&workflow, &mut ctx),
        Err(WorkflowValidationError::NodeTypeNotFound { kind: ActionType::Start })
    ));
}

#[test]
fn datastore_nodes_need_their_inputs() {
    let n = node(3, ActionType::GetDatastoreEntry, ActionMetadata::GetDatastoreEntry, vec![], vec![], vec![]);
    let mut v = WorkflowNodeValidation { id: 3, inputs: vec!["universe_id".to_string()], outputs: vec![] };
    match validate_node(&n, &mut v) {
        Err(WorkflowNodeValidationError::InputNotFound { name }) => assert_eq!(name, "datastore_id"),
        _ => panic!("datastore_id is missing"),
    }
    let join = node(4, ActionType::JoinString, ActionMetadata::JoinString, vec![], vec![], vec![]);
    let mut v = WorkflowNodeValidation { id: 4, inputs: vec![], outputs: vec![] };
    assert!(matches!(
        validate_node(&join, &mut v),
        Err(WorkflowNodeValidationError::IncorrectInputs { actual: 0, expected: 1 })
    ));
}

fn execution_context() -> ExecutionContext {
    ExecutionContext {
        nodes: vec![
            WorkflowNodeExecution { id: 0, inputs: vec![], outputs: vec![] },
            WorkflowNodeExecution { id: 1, inputs: vec![], outputs: vec![] },
        ],
    }
}

#[test]
fn a_workflow_runs_node_by_node() {
    let workflow = start_and_add();
    let mut ctx = execution_context();
    let args = vec![("a".to_string(), Value::Number(37))];
    let start = workflow_start(&workflow).ok().unwrap();
    assert_eq!(start, 0);
    let q = prepare_node(&workflow.nodes[0], &mut ctx, &args).ok().unwrap();
    let step = execute_node(&workflow.nodes[0], &mut ctx.nodes[q]);
    let Ok(NodeStep::Finished(result)) = step else { panic!("start finishes") };
    assert_eq!(result.outcome, "next");
    let next = follow_outcome(&workflow, &workflow.nodes[0], &result).ok().unwrap();
    assert_eq!(next, Some(1));
    let q = prepare_node(&workflow.nodes[1], &mut ctx, &args).ok().unwrap();
    let step = execute_node(&workflow.nodes[1], &mut ctx.nodes[q]);
    assert!(matches!(step, Ok(NodeStep::Finished(_))));
    assert!(matches!(ctx.nodes[1].outputs[0].1, Value::Number(42)));
    let done = WorkflowExecutionNodeResult { outcome: "next".to_string() };
    assert_eq!(follow_outcome(&workflow, &workflow.nodes[1], &done).ok().unwrap(), None);
}

#[test]
fn missing_arguments_stop_the_workflow() {
    let workflow = start_and_add();
    let mut ctx = execution_context();
    match prepare_node(&workflow.nodes[0], &mut ctx, &vec![]) {
        Err(WorkflowExecutionError::InputNotFound { id, name }) => assert_eq!((id, name.as_str()), (0, "a")),
        _ => panic!("the argument is missing"),
    }
}

#[test]
fn join_string_concatenates_inputs() {
    let n = node(
        2,
        ActionType::JoinString,
        ActionMetadata::JoinString,
        vec![input("a", ActionInputSource::Static(Value::Number(1))), input("b", ActionInputSource::Static(Value::Number(1)))],
        vec![output("joined", ValueType::String)],
        vec![],
    );
    let mut e = WorkflowNodeExecution {
        id: 2,
        inputs: vec![("a".to_string(), Value::String("x-".to_string())), ("b".to_string(), Value::Number(-12))],
        outputs: vec![],
    };
    assert!(matches!(execute_node(&n, &mut e), Ok(NodeStep::Finished(_))));
    assert!(matches!(&e.outputs[0].1, Value::String(s) if s == "x--12"));
}

#[test]
fn messages_fill_placeholders() {
    let inputs = vec![("name".to_string(), Value::String("Bob".to_string())), ("n".to_string(), Value::Number(3))];
    assert_eq!(fill_message("Hello {name}!", &inputs), Some("Hello Bob!".to_string()));
    assert_eq!(fill_message("{x} and {}", &inputs), Some("{x} and {}".to_string()));
    // Later placeholders keep the byte ranges they had in the unfilled message.
    assert_eq!(fill_message("Hi {name}, {n} {x}", &inputs), Some("Hi Bob, {n}3}".to_string()));
    let long = vec![("name".to_string(), Value::String("Roberto".to_string()))];
    assert_eq!(fill_message("{name} {name}", &long), Some("RobertoRoberto}".to_string()));
    assert_eq!(fill_message("{n}{n}", &inputs), None);
    let n = node(
        5,
        ActionType::SendMessage,
        ActionMetadata::SendMessage(SendMessage { message: "Hello {name}".to_string(), channel: ChannelId(8) }),
        vec![],
        vec![],
        vec![("next", 6)],
    );
    let mut e = WorkflowNodeExecution { id: 5, inputs, outputs: vec![] };
    match execute_node(&n, &mut e) {
        Ok(NodeStep::Request(NodeRequest::SendMessage { channel, content })) => {
            assert_eq!(channel, ChannelId(8));
            assert_eq!(content, "Hello Bob");
        },
        _ => panic!("a message is sent"),
    }
    let r = resume_node(&n, &mut e, GuildId(1), NodeReply::MessageSent(Ok(())));
    assert!(matches!(r, Ok(ref res) if res.outcome == "next"));
}

#[test]
fn username_lookups_report_failure() {
    let n = node(
        7,
        ActionType::GetUsernameFromId,
        ActionMetadata::GetUsernameFromId,
        vec![],
        vec![output("username", ValueType::String)],
        vec![],
    );
    let mut e = WorkflowNodeExecution { id: 7, inputs: vec![("id".to_string(), Value::Number(15))], outputs: vec![] };
    assert!(matches!(
        execute_node(&n, &mut e),
        Ok(NodeStep::Request(NodeRequest::GetUsernameFromId { user_id })) if user_id.0 == 15
    ));
    let r = resume_node(&n, &mut e, GuildId(1), NodeReply::Username(Err(UserLookupError::NotFound)));
    assert!(matches!(r, Ok(ref res) if res.outcome == "failure"));
    let r = resume_node(&n, &mut e, GuildId(1), NodeReply::Username(Ok("bob".to_string())));
    assert!(matches!(r, Ok(ref res) if res.outcome == "success"));
    assert!(matches!(&e.outputs[0].1, Value::String(s) if s == "bob"));
}

fn entry(value: JsonValue) -> DatastoreEntry {
    DatastoreEntry { value, users: vec!["1".to_string()], attributes: JsonValue::Null }
}

fn object(members: Vec<(&str, JsonValue)>) -> JsonValue {
    JsonValue::Object(members.into_iter().map(|(k, v)| (k.to_string(), v)).collect())
}

#[test]
fn datastore_entries_are_read_and_edited() {
    let get = node(
        8,
        ActionType::GetDatastoreEntry,
        ActionMetadata::GetDatastoreEntry,
        vec![],
        vec![output("stats.level", ValueType::Number), output("name", ValueType::String)],
        vec![],
    );
    let inputs = vec![
        ("universe_id".to_string(), Value::Number(9)),
        ("datastore_id".to_string(), Value::String("players".to_string())),
        ("entry_id".to_string(), Value::String("p1".to_string())),
    ];
    let mut e = WorkflowNodeExecution { id: 8, inputs: inputs.clone(), outputs: vec![] };
    assert!(matches!(
        execute_node(&get, &mut e),
        Ok(NodeStep::Request(NodeRequest::GetDatastoreEntry { ref datastore_id, .. })) if datastore_id == "players"
    ));
    let value = object(vec![
        ("stats", object(vec![("level", JsonValue::Number(JsonNumber::PosInt(7)))])),
        ("name", JsonValue::String("bob".to_string())),
    ]);
    let r = resume_datastore_node(&get, &mut e, DatastoreReply::Fetched(Ok(entry(value))));
    assert!(matches!(r, Ok(NodeStep::Finished(_))));
    assert!(matches!(e.outputs[0].1, Value::Number(7)));
    assert!(matches!(&e.outputs[1].1, Value::String(s) if s == "bob"));

    let update = node(
        9,
        ActionType::UpdateDatastoreEntry,
        ActionMetadata::UpdateDatastoreEntry,
        vec![
            input("universe_id", ActionInputSource::Static(Value::Number(9))),
            input("stats.level", ActionInputSource::Static(Value::Number(8))),
        ],
        vec![],
        vec![],
    );
    let mut inputs2 = inputs.clone();
    inputs2.push(("stats.level".to_string(), Value::Number(8)));
    let mut e = WorkflowNodeExecution { id: 9, inputs: inputs2, outputs: vec![] };
    let value = object(vec![("stats", object(vec![("level", JsonValue::Number(JsonNumber::PosInt(7)))]))]);
    match resume_datastore_node(&update, &mut e, DatastoreReply::Fetched(Ok(entry(value)))) {
        Ok(NodeStep::Request(NodeRequest::WriteDatastoreEntry { value, .. })) => {
            let JsonValue::Object(members) = value else { panic!("an object") };
            let JsonValue::Object(stats) = &members[0].1 else { panic!("an object") };
            assert!(matches!(stats[0].1, JsonValue::Number(JsonNumber::PosInt(8))));
        },
        _ => panic!("the entry is written back"),
    }
    let missing = object(vec![]);
    assert!(matches!(
        resume_datastore_node(&update, &mut e, DatastoreReply::Fetched(Ok(entry(missing)))),
        Err(WorkflowNodeExecutionError::IncorrectInputFormat)
    ));
}

#[test]
fn setting_a_value_replaces_it() {
    let mut values = vec![("a".to_string(), Value::Number(1))];
    set_value(&mut values, "a", Value::Number(2));
    set_value(&mut values, "b", Value::Number(3));
    assert_eq!(values.len(), 2);
    assert!(matches!(values[0].1, Value::Number(2)));
    assert!(matches!(values[1].1, Value::Number(3)));
}

#[test]
fn nodes_are_checked_before_they_run() {
    let ctx = execution_context();
    assert!(has_execution_record(&ctx, 1));
    assert!(!has_execution_record(&ctx, 7));
    let join = node(
        2,
        ActionType::JoinString,
        ActionMetadata::JoinString,
        vec![input("a", ActionInputSource::Static(Value::Number(1))), input("b", ActionInputSource::Static(Value::Number(1)))],
        vec![output("joined", ValueType::String)],
        vec![],
    );
    let half = WorkflowNodeExecution { id: 2, inputs: vec![("a".to_string(), Value::Number(1))], outputs: vec![] };
    assert!(!has_all_inputs(&join, &half.inputs));
    assert!(!can_run_node(&join, &half));
    let full = WorkflowNodeExecution {
        id: 2,
        inputs: vec![("b".to_string(), Value::Number(1)), ("a".to_string(), Value::Number(1))],
        outputs: vec![],
    };
    assert!(can_run_node(&join, &full));
    let send = node(
        5,
        ActionType::SendMessage,
        ActionMetadata::SendMessage(SendMessage { message: "{n}{n}".to_string(), channel: ChannelId(8) }),
        vec![],
        vec![],
        vec![],
    );
    let e = WorkflowNodeExecution { id: 5, inputs: vec![("n".to_string(), Value::Number(3))], outputs: vec![] };
    assert!(!can_run_node(&send, &e));
}

#[test]
fn validation_ends_without_cycles() {
    let ctx = validation_context();
    let w = start_and_add();
    assert!(validation_ends(&w, &ctx));
    let mut v = validation_context();
    assert!(validate_workflow(&w, &mut v).is_ok());
    let mut looping = start_and_add();
    looping.nodes[1].next = vec![("next".to_string(), 0)];
    assert!(!validation_ends(&looping, &ctx));
    let missing_state = ValidationContext { nodes: vec![WorkflowNodeValidation { id: 0, inputs: vec![], outputs: vec![] }] };
    assert!(!validation_ends(&w, &missing_state));
    let mut no_start = start_and_add();
    no_start.nodes.remove(0);
    assert!(validation_ends(&no_start, &ctx));
    let mut unreachable_loop = start_and_add();
    unreachable_loop.nodes.push(node(2, ActionType::Add, ActionMetadata::Add, vec![], vec![], vec![("next", 2)]));
    assert!(validation_ends(&unreachable_loop, &ctx));
}

#[test]
fn validation_runs_only_when_it_ends() {
    let w = start_and_add();
    let mut v = validation_context();
    assert!(matches!(try_validate_workflow(&w, &mut v), Some(Ok(()))));
    let mut looping = start_and_add();
    looping.nodes[1].next = vec![("next".to_string(), 0)];
    let mut untouched = validation_context();
    assert!(try_validate_workflow(&looping, &mut untouched).is_none());
    assert_eq!(untouched.nodes.len(), 2);
    assert!(untouched.nodes[0].outputs.is_empty() && untouched.nodes[1].inputs.is_empty());
}
