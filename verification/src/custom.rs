//! Checking and running custom workflows.
use vstd::prelude::*;

pub mod ends;
pub mod execute;
pub mod json;

use crate::models::custom::{
    ActionInput, ActionInputSource, ActionMetadata, ActionOutput, ActionType, Workflow, WorkflowNode,
};
use crate::text::{str_eq, texts};

verus! {

/// What validation has learnt of one node: which inputs it is given and which
/// outputs it produces, each name once.
pub struct WorkflowNodeValidation {
    pub id: usize,
    pub inputs: Vec<String>,
    pub outputs: Vec<String>,
}

pub struct ValidationContext {
    pub nodes: Vec<WorkflowNodeValidation>,
}

/// A node's validation state as names.
pub struct ValidationModel {
    pub id: usize,
    pub inputs: Seq<Seq<char>>,
    pub outputs: Seq<Seq<char>>,
}

impl View for WorkflowNodeValidation {
    type V = ValidationModel;

    open spec fn view(&self) -> ValidationModel {
        ValidationModel { id: self.id, inputs: texts(self.inputs@), outputs: texts(self.outputs@) }
    }
}

impl WorkflowNodeValidation {
    /// No name is listed twice.
    pub open spec fn wf(&self) -> bool {
        texts(self.inputs@).no_duplicates() && texts(self.outputs@).no_duplicates()
    }
}

impl ValidationContext {
    pub open spec fn model(&self) -> Seq<ValidationModel> {
        self.nodes@.map_values(|n: WorkflowNodeValidation| n@)
    }

    pub open spec fn wf(&self) -> bool {
        forall|i: int| 0 <= i < self.nodes@.len() ==> (#[trigger] self.nodes@[i]).wf()
    }
}

pub enum WorkflowNodeValidationError {
    InputNotFound { name: String },
    OutputNotFound,
    IncorrectInputs { actual: u32, expected: u32 },
    IncorrectOutputs { actual: u32, expected: u32 },
}

pub enum NodeValidationErrorModel {
    InputNotFound(Seq<char>),
    OutputNotFound,
    IncorrectInputs(u32, u32),
    IncorrectOutputs(u32, u32),
}

impl WorkflowNodeValidationError {
    pub open spec fn model(self) -> NodeValidationErrorModel {
        match self {
            WorkflowNodeValidationError::InputNotFound { name } => NodeValidationErrorModel::InputNotFound(name@),
            WorkflowNodeValidationError::OutputNotFound => NodeValidationErrorModel::OutputNotFound,
            WorkflowNodeValidationError::IncorrectInputs { actual, expected } => NodeValidationErrorModel::IncorrectInputs(actual, expected),
            WorkflowNodeValidationError::IncorrectOutputs { actual, expected } => NodeValidationErrorModel::IncorrectOutputs(actual, expected),
        }
    }
}

/// `names` with `name` added at the end unless it is there.
pub open spec fn insert_text(names: Seq<Seq<char>>, name: Seq<char>) -> Seq<Seq<char>> {
    if names.contains(name) {
        names
    } else {
        names.push(name)
    }
}

/// `names` with each of `more` added in turn.
pub open spec fn insert_all(names: Seq<Seq<char>>, more: Seq<Seq<char>>) -> Seq<Seq<char>>
    decreases more.len(),
{
    if more.len() == 0 {
        names
    } else {
        insert_text(insert_all(names, more.drop_last()), more.last())
    }
}

pub open spec fn output_names(node: WorkflowNode) -> Seq<Seq<char>> {
    node.outputs@.map_values(|o: ActionOutput| o.name@)
}

pub open spec fn with_outputs(m: ValidationModel, outputs: Seq<Seq<char>>) -> ValidationModel {
    ValidationModel { id: m.id, inputs: m.inputs, outputs }
}

/// The first of `names` that the node is not given, if any.
pub open spec fn missing_input(m: ValidationModel, names: Seq<Seq<char>>) -> Option<Seq<char>>
    decreases names.len(),
{
    if names.len() == 0 {
        None
    } else {
        match missing_input(m, names.drop_last()) {
            Some(n) => Some(n),
            None => if m.inputs.contains(names.last()) {
                None
            } else {
                Some(names.last())
            },
        }
    }
}

/// What checking `node` does to its validation state `m`, and the error it
/// finds, if any.
pub open spec fn spec_validate_node(node: WorkflowNode, m: ValidationModel) -> (ValidationModel, Option<NodeValidationErrorModel>) {
    match node.metadata {
        ActionMetadata::Start => (with_outputs(m, insert_all(m.outputs, m.inputs)), None),
        ActionMetadata::SendMessage(_) => (m, None),
        ActionMetadata::JoinString | ActionMetadata::Add => if node.inputs@.len() == 0 {
            (m, Some(NodeValidationErrorModel::IncorrectInputs(0, 1)))
        } else if node.outputs@.len() != 1 {
            (m, Some(NodeValidationErrorModel::IncorrectOutputs(node.outputs@.len() as u32, 1)))
        } else {
            (with_outputs(m, insert_text(m.outputs, node.outputs@[0].name@)), None)
        },
        ActionMetadata::GetDatastoreEntry => match missing_input(
            m,
            seq!["universe_id"@, "datastore_id"@, "entry_id"@],
        ) {
            Some(n) => (m, Some(NodeValidationErrorModel::InputNotFound(n))),
            None => (with_outputs(m, insert_all(m.outputs, output_names(node))), None),
        },
        ActionMetadata::UpdateDatastoreEntry => match missing_input(
            m,
            seq!["universe_id"@, "datastore_id"@, "entry_id"@],
        ) {
            Some(n) => (m, Some(NodeValidationErrorModel::InputNotFound(n))),
            None => if m.inputs.len() <= 3 {
                (m, Some(NodeValidationErrorModel::IncorrectInputs(m.inputs.len() as u32, 4)))
            } else {
                (with_outputs(m, insert_all(m.outputs, output_names(node))), None)
            },
        },
        ActionMetadata::GetRoWifiUser => if m.inputs.len() != 1 {
            (m, Some(NodeValidationErrorModel::IncorrectInputs(m.inputs.len() as u32, 1)))
        } else {
            (with_outputs(m, insert_text(insert_text(m.outputs, "roblox_id"@), "discord_id"@)), None)
        },
        ActionMetadata::PublishUniverseMessage => match missing_input(
            m,
            seq!["universe_id"@, "topic"@, "message"@],
        ) {
            Some(n) => (m, Some(NodeValidationErrorModel::InputNotFound(n))),
            None => (m, None),
        },
        ActionMetadata::GetIdFromUsername | ActionMetadata::GetUsernameFromId => if m.inputs.len() != 1 {
            (m, Some(NodeValidationErrorModel::IncorrectInputs(m.inputs.len() as u32, 1)))
        } else if m.outputs.len() != 1 {
            (m, Some(NodeValidationErrorModel::IncorrectOutputs(m.outputs.len() as u32, 1)))
        } else {
            (m, None)
        },
    }
}

/// Whether a name spelled `name` is among `names`.
fn contains_name(names: &Vec<String>, name: &str) -> (r: bool)
    ensures
        r == texts(names@).contains(name@),
{
    let mut i: usize = 0;
    while i < names.len()
        invariant
            i <= names@.len(),
            forall|j: int| 0 <= j < i ==> names@[j]@ != name@,
        decreases names@.len() - i,
    {
        if str_eq(names[i].as_str(), name) {
            assert(texts(names@)[i as int] == name@);
            return true;
        }
        i = i + 1;
    }
    assert(!texts(names@).contains(name@)) by {
        if texts(names@).contains(name@) {
            let j = choose|j: int| 0 <= j < texts(names@).len() && texts(names@)[j] == name@;
            assert(names@[j]@ == name@);
        }
    }
    false
}

/// Adds `name` unless it is there.
fn insert_name(names: &mut Vec<String>, name: &str)
    requires
        texts(old(names)@).no_duplicates(),
    ensures
        texts(final(names)@) == insert_text(texts(old(names)@), name@),
        texts(final(names)@).no_duplicates(),
{
    if !contains_name(names, name) {
        let ghost before = names@;
        names.push(name.to_owned());
        assert(texts(names@) =~= texts(before).push(name@));
    }
}

/// Adds each of `more` in turn, skipping those already there.
fn insert_names(names: &mut Vec<String>, more: &Vec<String>)
    requires
        texts(old(names)@).no_duplicates(),
    ensures
        texts(final(names)@) == insert_all(texts(old(names)@), texts(more@)),
        texts(final(names)@).no_duplicates(),
{
    let mut i: usize = 0;
    while i < more.len()
        invariant
            i <= more@.len(),
            texts(names@) == insert_all(texts(old(names)@), texts(more@.take(i as int))),
            texts(names@).no_duplicates(),
        decreases more@.len() - i,
    {
        assert(texts(more@.take(i + 1)).drop_last() =~= texts(more@.take(i as int)));
        insert_name(names, more[i].as_str());
        i = i + 1;
    }
    assert(more@.take(i as int) =~= more@);
}

/// The first of the three names that the node is not given, if any.
fn first_missing<'a>(execution_node: &WorkflowNodeValidation, a: &'a str, b: &'a str, c: &'a str) -> (r:
    Option<&'a str>)
    ensures
        match missing_input(execution_node@, seq![a@, b@, c@]) {
            Some(n) => r matches Some(s) && s@ == n,
            None => r is None,
        },
{
    let ghost names = seq![a@, b@, c@];
    assert(names.drop_last().drop_last().drop_last() =~= Seq::<Seq<char>>::empty());
    assert(names.drop_last().drop_last() =~= seq![a@]);
    assert(names.drop_last() =~= seq![a@, b@]);
    proof {
        reveal_with_fuel(missing_input, 4);
    }
    if !contains_name(&execution_node.inputs, a) {
        return Some(a);
    }
    if !contains_name(&execution_node.inputs, b) {
        return Some(b);
    }
    if !contains_name(&execution_node.inputs, c) {
        return Some(c);
    }
    None
}

/// The names of the node's outputs.
fn output_name_list(node: &WorkflowNode) -> (r: Vec<String>)
    ensures
        texts(r@) == output_names(*node),
{
    let mut out: Vec<String> = Vec::new();
    let mut i: usize = 0;
    while i < node.outputs.len()
        invariant
            i <= node.outputs@.len(),
            texts(out@) == output_names(*node).take(i as int),
        decreases node.outputs@.len() - i,
    {
        let ghost before = out@;
        out.push(node.outputs[i].name.clone());
        assert(texts(out@) =~= texts(before).push(node.outputs@[i as int].name@));
        assert(output_names(*node).take(i + 1) =~= output_names(*node).take(i as int).push(
            node.outputs@[i as int].name@,
        ));
        i = i + 1;
    }
    assert(output_names(*node).take(i as int) =~= output_names(*node));
    out
}

/// Checks one node of a workflow against what validation has learnt of it,
/// and records the outputs it produces.
pub fn validate_node(node: &WorkflowNode, execution_node: &mut WorkflowNodeValidation) -> (r: Result<
    (),
    WorkflowNodeValidationError,
>)
    requires
        old(execution_node).wf(),
    ensures
        final(execution_node).wf(),
        final(execution_node)@ == spec_validate_node(*node, old(execution_node)@).0,
        match spec_validate_node(*node, old(execution_node)@).1 {
            Some(e) => r matches Err(err) && err.model() == e,
            None => r is Ok,
        },
{
    match &node.metadata {
        ActionMetadata::Start => {
            let inputs = execution_node.inputs.clone();
            assert(inputs@ =~= execution_node.inputs@);
            insert_names(&mut execution_node.outputs, &inputs);
        },
        ActionMetadata::SendMessage(_) => {},
        ActionMetadata::JoinString | ActionMetadata::Add => {
            if node.inputs.len() == 0 {
                return Err(WorkflowNodeValidationError::IncorrectInputs { actual: 0, expected: 1 });
            }
            if node.outputs.len() != 1 {
                return Err(
                    WorkflowNodeValidationError::IncorrectOutputs {
                        actual: #[verifier::truncate] (node.outputs.len() as u32),
                        expected: 1,
                    },
                );
            }
            insert_name(&mut execution_node.outputs, node.outputs[0].name.as_str());
        },
        ActionMetadata::GetDatastoreEntry => {
            if let Some(name) = first_missing(execution_node, "universe_id", "datastore_id", "entry_id") {
                return Err(WorkflowNodeValidationError::InputNotFound { name: name.to_owned() });
            }
            let outputs = output_name_list(node);
            insert_names(&mut execution_node.outputs, &outputs);
        },
        ActionMetadata::UpdateDatastoreEntry => {
            if let Some(name) = first_missing(execution_node, "universe_id", "datastore_id", "entry_id") {
                return Err(WorkflowNodeValidationError::InputNotFound { name: name.to_owned() });
            }
            if execution_node.inputs.len() <= 3 {
                return Err(
                    WorkflowNodeValidationError::IncorrectInputs {
                        actual: #[verifier::truncate] (execution_node.inputs.len() as u32),
                        expected: 4,
                    },
                );
            }
            let outputs = output_name_list(node);
            insert_names(&mut execution_node.outputs, &outputs);
        },
        ActionMetadata::GetRoWifiUser => {
            if execution_node.inputs.len() != 1 {
                return Err(
                    WorkflowNodeValidationError::IncorrectInputs {
                        actual: #[verifier::truncate] (execution_node.inputs.len() as u32),
                        expected: 1,
                    },
                );
            }
            insert_name(&mut execution_node.outputs, "roblox_id");
            insert_name(&mut execution_node.outputs, "discord_id");
        },
        ActionMetadata::PublishUniverseMessage => {
            if let Some(name) = first_missing(execution_node, "universe_id", "topic", "message") {
                return Err(WorkflowNodeValidationError::InputNotFound { name: name.to_owned() });
            }
        },
        ActionMetadata::GetIdFromUsername | ActionMetadata::GetUsernameFromId => {
            if execution_node.inputs.len() != 1 {
                return Err(
                    WorkflowNodeValidationError::IncorrectInputs {
                        actual: #[verifier::truncate] (execution_node.inputs.len() as u32),
                        expected: 1,
                    },
                );
            }
            if execution_node.outputs.len() != 1 {
                return Err(
                    WorkflowNodeValidationError::IncorrectOutputs {
                        actual: #[verifier::truncate] (execution_node.outputs.len() as u32),
                        expected: 1,
                    },
                );
            }
        },
    }
    Ok(())
}

pub enum WorkflowValidationError {
    NodeNotFound { id: usize },
    NodeTypeNotFound { kind: ActionType },
    OutputNotFound { id: usize, name: String, source_id: usize, source_name: String },
    IncorrectInputType,
    Node { id: usize, err: WorkflowNodeValidationError },
}

pub enum ValidationErrorModel {
    NodeNotFound(usize),
    NodeTypeNotFound(ActionType),
    OutputNotFound(usize, Seq<char>, usize, Seq<char>),
    IncorrectInputType,
    Node(usize, NodeValidationErrorModel),
}

impl WorkflowValidationError {
    pub open spec fn model(self) -> ValidationErrorModel {
        match self {
            WorkflowValidationError::NodeNotFound { id } => ValidationErrorModel::NodeNotFound(id),
            WorkflowValidationError::NodeTypeNotFound { kind } => ValidationErrorModel::NodeTypeNotFound(kind),
            WorkflowValidationError::OutputNotFound { id, name, source_id, source_name } => ValidationErrorModel::OutputNotFound(
                id,
                name@,
                source_id,
                source_name@,
            ),
            WorkflowValidationError::IncorrectInputType => ValidationErrorModel::IncorrectInputType,
            WorkflowValidationError::Node { id, err } => ValidationErrorModel::Node(id, err.model()),
        }
    }
}

/// The first node state with the id `id`.
pub open spec fn first_ctx(ctx: Seq<ValidationModel>, id: usize) -> Option<int>
    decreases ctx.len(),
{
    if ctx.len() == 0 {
        None
    } else {
        match first_ctx(ctx.drop_last(), id) {
            Some(i) => Some(i),
            None => if ctx.last().id == id {
                Some(ctx.len() - 1)
            } else {
                None
            },
        }
    }
}

/// The first node of the workflow with the id `id`.
pub open spec fn first_node(nodes: Seq<WorkflowNode>, id: usize) -> Option<int>
    decreases nodes.len(),
{
    if nodes.len() == 0 {
        None
    } else {
        match first_node(nodes.drop_last(), id) {
            Some(i) => Some(i),
            None => if nodes.last().id == id {
                Some(nodes.len() - 1)
            } else {
                None
            },
        }
    }
}

/// The first node of the workflow that starts it.
pub open spec fn first_start(nodes: Seq<WorkflowNode>) -> Option<int>
    decreases nodes.len(),
{
    if nodes.len() == 0 {
        None
    } else {
        match first_start(nodes.drop_last()) {
            Some(i) => Some(i),
            None => if nodes.last().kind == ActionType::Start {
                Some(nodes.len() - 1)
            } else {
                None
            },
        }
    }
}

proof fn lemma_first_start_in_range(nodes: Seq<WorkflowNode>)
    ensures
        first_start(nodes) matches Some(s) ==> 0 <= s < nodes.len(),
    decreases nodes.len(),
{
    if nodes.len() > 0 {
        lemma_first_start_in_range(nodes.drop_last());
    }
}

/// Where validation stands after some of a node's inputs: the states so far,
/// the error that stopped it, or a node without a state (a bug, on which
/// validating panics).
pub enum InputsOutcome {
    Done(Seq<ValidationModel>),
    Failed(Seq<ValidationModel>, ValidationErrorModel),
    Stuck,
}

/// Checks one input of `node`: an input taken from another node's output
/// needs that node's state to list the output. The input is then recorded in
/// the node's state.
pub open spec fn check_input(ctx: Seq<ValidationModel>, node: WorkflowNode, input: ActionInput) -> InputsOutcome {
    let failure = match input.source {
        ActionInputSource::Action { action_id, output_name } => match first_ctx(ctx, action_id) {
            None => Some(ValidationErrorModel::NodeNotFound(action_id)),
            Some(p) => if ctx[p].outputs.contains(output_name@) {
                None
            } else {
                Some(ValidationErrorModel::OutputNotFound(node.id, input.name@, action_id, output_name@))
            },
        },
        _ => None,
    };
    match failure {
        Some(e) => InputsOutcome::Failed(ctx, e),
        None => match first_ctx(ctx, node.id) {
            None => InputsOutcome::Stuck,
            Some(q) => InputsOutcome::Done(
                ctx.update(
                    q,
                    ValidationModel {
                        id: ctx[q].id,
                        inputs: insert_text(ctx[q].inputs, input.name@),
                        outputs: ctx[q].outputs,
                    },
                ),
            ),
        },
    }
}

/// Checks the first `k` inputs of `node` in order.
pub open spec fn check_inputs(ctx: Seq<ValidationModel>, node: WorkflowNode, k: int) -> InputsOutcome
    decreases k,
{
    if k <= 0 {
        InputsOutcome::Done(ctx)
    } else {
        match check_inputs(ctx, node, k - 1) {
            InputsOutcome::Done(c) => check_input(c, node, node.inputs@[k - 1]),
            other => other,
        }
    }
}

/// The positions of the nodes that the first `k` entries of `next` lead to,
/// or the id of the first one that the workflow lacks.
pub open spec fn successors(nodes: Seq<WorkflowNode>, next: Seq<(String, usize)>, k: int) -> Result<Seq<int>, usize>
    decreases k,
{
    if k <= 0 {
        Ok(Seq::empty())
    } else {
        match successors(nodes, next, k - 1) {
            Err(id) => Err(id),
            Ok(s) => match first_node(nodes, next[k - 1].1) {
                None => Err(next[k - 1].1),
                Some(i) => Ok(s.push(i)),
            },
        }
    }
}

pub enum StepOutcome {
    Next(Seq<ValidationModel>, Seq<int>),
    Failed(Seq<ValidationModel>, ValidationErrorModel),
    Stuck,
}

/// Validating the node at position `k`: its inputs, then the node itself,
/// then the nodes it leads to, which join the queue.
pub open spec fn validation_step(nodes: Seq<WorkflowNode>, ctx: Seq<ValidationModel>, k: int) -> StepOutcome {
    let node = nodes[k];
    match check_inputs(ctx, node, node.inputs@.len() as int) {
        InputsOutcome::Stuck => StepOutcome::Stuck,
        InputsOutcome::Failed(c, e) => StepOutcome::Failed(c, e),
        InputsOutcome::Done(c) => match first_ctx(c, node.id) {
            None => StepOutcome::Stuck,
            Some(q) => {
                let (m, err) = spec_validate_node(node, c[q]);
                let c2 = c.update(q, m);
                match err {
                    Some(e) => StepOutcome::Failed(c2, ValidationErrorModel::Node(node.id, e)),
                    None => match successors(nodes, node.next@, node.next@.len() as int) {
                        Err(id) => StepOutcome::Failed(c2, ValidationErrorModel::NodeNotFound(id)),
                        Ok(s) => StepOutcome::Next(c2, s),
                    },
                }
            },
        },
    }
}

/// Validation from the states `ctx` with the nodes at the positions `queue`
/// waiting, within `fuel` steps: the final states and the result, or `None`
/// when it does not end within `fuel` steps or gets stuck.
pub open spec fn run_validation(nodes: Seq<WorkflowNode>, ctx: Seq<ValidationModel>, queue: Seq<int>, fuel: nat) -> Option<
    (Seq<ValidationModel>, Result<(), ValidationErrorModel>),
>
    decreases fuel,
{
    if queue.len() == 0 {
        Some((ctx, Ok(())))
    } else if fuel == 0 {
        None
    } else {
        match validation_step(nodes, ctx, queue[0]) {
            StepOutcome::Stuck => None,
            StepOutcome::Failed(c, e) => Some((c, Err(e))),
            StepOutcome::Next(c, s) => run_validation(nodes, c, queue.drop_first() + s, (fuel - 1) as nat),
        }
    }
}

/// What validating the workflow from the states `ctx` ends with, if it ends:
/// a workflow without a start node is refused at once; otherwise the nodes
/// are validated breadth first from its first start node.
pub open spec fn validation_outcome(workflow: Workflow, ctx: Seq<ValidationModel>) -> Option<
    (Seq<ValidationModel>, Result<(), ValidationErrorModel>),
> {
    match first_start(workflow.nodes@) {
        None => Some((ctx, Err(ValidationErrorModel::NodeTypeNotFound(ActionType::Start)))),
        Some(s) => if exists|f: nat| run_validation(workflow.nodes@, ctx, seq![s], f) is Some {
            run_validation(
                workflow.nodes@,
                ctx,
                seq![s],
                choose|f: nat| run_validation(workflow.nodes@, ctx, seq![s], f) is Some,
            )
        } else {
            None
        },
    }
}

fn find_ctx(ctx: &Vec<WorkflowNodeValidation>, id: usize) -> (r: Option<usize>)
    ensures
        r is None <==> first_ctx(ctx@.map_values(|n: WorkflowNodeValidation| n@), id) is None,
        r matches Some(i) ==> first_ctx(ctx@.map_values(|n: WorkflowNodeValidation| n@), id) == Some(
            i as int,
        ) && i < ctx@.len(),
{
    let ghost model = ctx@.map_values(|n: WorkflowNodeValidation| n@);
    let mut i: usize = 0;
    while i < ctx.len()
        invariant
            i <= ctx@.len(),
            model == ctx@.map_values(|n: WorkflowNodeValidation| n@),
            first_ctx(model.take(i as int), id) is None,
        decreases ctx@.len() - i,
    {
        assert(model.take(i + 1).drop_last() =~= model.take(i as int));
        if ctx[i].id == id {
            assert(first_ctx(model.take(i + 1), id) == Some(i as int));
            assert forall|j: int| i + 1 <= j <= model.len() implies first_ctx(model.take(j), id) == Some(
                i as int,
            ) by {
                lemma_first_ctx_extends(model, id, i + 1, j);
            }
            assert(model.take(model.len() as int) =~= model);
            return Some(i);
        }
        i = i + 1;
    }
    assert(model.take(i as int) =~= model);
    None
}

proof fn lemma_first_ctx_extends(model: Seq<ValidationModel>, id: usize, a: int, b: int)
    requires
        0 <= a <= b <= model.len(),
        first_ctx(model.take(a), id) is Some,
    ensures
        first_ctx(model.take(b), id) == first_ctx(model.take(a), id),
    decreases b - a,
{
    if b > a {
        lemma_first_ctx_extends(model, id, a, b - 1);
        assert(model.take(b).drop_last() =~= model.take(b - 1));
    }
}

proof fn lemma_first_node_extends(nodes: Seq<WorkflowNode>, id: usize, a: int, b: int)
    requires
        0 <= a <= b <= nodes.len(),
        first_node(nodes.take(a), id) is Some,
    ensures
        first_node(nodes.take(b), id) == first_node(nodes.take(a), id),
    decreases b - a,
{
    if b > a {
        lemma_first_node_extends(nodes, id, a, b - 1);
        assert(nodes.take(b).drop_last() =~= nodes.take(b - 1));
    }
}

proof fn lemma_first_start_extends(nodes: Seq<WorkflowNode>, a: int, b: int)
    requires
        0 <= a <= b <= nodes.len(),
        first_start(nodes.take(a)) is Some,
    ensures
        first_start(nodes.take(b)) == first_start(nodes.take(a)),
    decreases b - a,
{
    if b > a {
        lemma_first_start_extends(nodes, a, b - 1);
        assert(nodes.take(b).drop_last() =~= nodes.take(b - 1));
    }
}

pub(crate) fn find_node(nodes: &Vec<WorkflowNode>, id: usize) -> (r: Option<usize>)
    ensures
        r is None <==> first_node(nodes@, id) is None,
        r matches Some(i) ==> first_node(nodes@, id) == Some(i as int) && i < nodes@.len(),
{
    let mut i: usize = 0;
    while i < nodes.len()
        invariant
            i <= nodes@.len(),
            first_node(nodes@.take(i as int), id) is None,
        decreases nodes@.len() - i,
    {
        assert(nodes@.take(i + 1).drop_last() =~= nodes@.take(i as int));
        if nodes[i].id == id {
            assert(first_node(nodes@.take(i + 1), id) == Some(i as int));
            proof {
                lemma_first_node_extends(nodes@, id, i + 1, nodes@.len() as int);
            }
            assert(nodes@.take(nodes@.len() as int) =~= nodes@);
            return Some(i);
        }
        i = i + 1;
    }
    assert(nodes@.take(i as int) =~= nodes@);
    None
}

pub(crate) fn find_start(nodes: &Vec<WorkflowNode>) -> (r: Option<usize>)
    ensures
        r is None <==> first_start(nodes@) is None,
        r matches Some(i) ==> first_start(nodes@) == Some(i as int) && i < nodes@.len(),
{
    let mut i: usize = 0;
    while i < nodes.len()
        invariant
            i <= nodes@.len(),
            first_start(nodes@.take(i as int)) is None,
        decreases nodes@.len() - i,
    {
        assert(nodes@.take(i + 1).drop_last() =~= nodes@.take(i as int));
        if nodes[i].kind == ActionType::Start {
            assert(first_start(nodes@.take(i + 1)) == Some(i as int));
            proof {
                lemma_first_start_extends(nodes@, i + 1, nodes@.len() as int);
            }
            assert(nodes@.take(nodes@.len() as int) =~= nodes@);
            return Some(i);
        }
        i = i + 1;
    }
    assert(nodes@.take(i as int) =~= nodes@);
    None
}

proof fn lemma_check_inputs_settled(ctx: Seq<ValidationModel>, node: WorkflowNode, j: int, k: int)
    requires
        0 <= j <= k,
        !(check_inputs(ctx, node, j) is Done),
    ensures
        check_inputs(ctx, node, k) == check_inputs(ctx, node, j),
    decreases k - j,
{
    if k > j {
        lemma_check_inputs_settled(ctx, node, j, k - 1);
    }
}

/// Records `name` among the inputs of the node state at position `q`.
fn record_input(nodes: &mut Vec<WorkflowNodeValidation>, q: usize, name: &str)
    requires
        q < old(nodes)@.len(),
        forall|i: int| 0 <= i < old(nodes)@.len() ==> (#[trigger] old(nodes)@[i]).wf(),
    ensures
        final(nodes)@.len() == old(nodes)@.len(),
        forall|i: int| 0 <= i < final(nodes)@.len() ==> (#[trigger] final(nodes)@[i]).wf(),
        final(nodes)@.map_values(|n: WorkflowNodeValidation| n@) == old(nodes)@.map_values(
            |n: WorkflowNodeValidation| n@,
        ).update(
            q as int,
            ValidationModel {
                id: old(nodes)@[q as int].id,
                inputs: insert_text(old(nodes)@[q as int]@.inputs, name@),
                outputs: old(nodes)@[q as int]@.outputs,
            },
        ),
{
    let entry = &mut nodes[q];
    insert_name(&mut entry.inputs, name);
    proof {
        assert(final(nodes)@.map_values(|n: WorkflowNodeValidation| n@) =~= old(nodes)@.map_values(
            |n: WorkflowNodeValidation| n@,
        ).update(
            q as int,
            ValidationModel {
                id: old(nodes)@[q as int].id,
                inputs: insert_text(old(nodes)@[q as int]@.inputs, name@),
                outputs: old(nodes)@[q as int]@.outputs,
            },
        ));
    }
}

/// Checks and records the inputs of `node`, stopping at the first that fails.
fn check_node_inputs(node: &WorkflowNode, ctx: &mut ValidationContext) -> (r: Result<(), WorkflowValidationError>)
    requires
        old(ctx).wf(),
        !(check_inputs(old(ctx).model(), *node, node.inputs@.len() as int) is Stuck),
    ensures
        final(ctx).wf(),
        match check_inputs(old(ctx).model(), *node, node.inputs@.len() as int) {
            InputsOutcome::Done(c) => r is Ok && final(ctx).model() == c,
            InputsOutcome::Failed(c, e) => r matches Err(err) && err.model() == e && final(ctx).model() == c,
            InputsOutcome::Stuck => false,
        },
{
    let ghost ctx0 = ctx.model();
    let ghost total = node.inputs@.len() as int;
    let mut j: usize = 0;
    while j < node.inputs.len()
        invariant
            j <= node.inputs@.len(),
            total == node.inputs@.len(),
            ctx0 == old(ctx).model(),
            ctx.wf(),
            check_inputs(ctx0, *node, j as int) == InputsOutcome::Done(ctx.model()),
            !(check_inputs(ctx0, *node, total) is Stuck),
        decreases node.inputs@.len() - j,
    {
        let input = &node.inputs[j];
        let ghost before = ctx.model();
        assert(check_inputs(ctx0, *node, j + 1) == check_input(before, *node, node.inputs@[j as int]));
        match &input.source {
            ActionInputSource::Action { action_id, output_name } => {
                match find_ctx(&ctx.nodes, *action_id) {
                    None => {
                        assert(node.inputs@[j as int].source == input.source);
                        assert(check_input(before, *node, node.inputs@[j as int]) == InputsOutcome::Failed(
                            before,
                            ValidationErrorModel::NodeNotFound(*action_id),
                        ));
                        assert(check_inputs(ctx0, *node, j + 1) == InputsOutcome::Failed(
                            before,
                            ValidationErrorModel::NodeNotFound(*action_id),
                        ));
                        proof {
                            lemma_check_inputs_settled(ctx0, *node, j + 1, total);
                        }
                        return Err(WorkflowValidationError::NodeNotFound { id: *action_id });
                    },
                    Some(p) => {
                        if !contains_name(&ctx.nodes[p].outputs, output_name.as_str()) {
                            assert(node.inputs@[j as int].source == input.source);
                            assert(before == ctx.nodes@.map_values(|n: WorkflowNodeValidation| n@));
                            assert(first_ctx(before, *action_id) == Some(p as int));
                            assert(before[p as int].outputs == texts(ctx.nodes@[p as int].outputs@));
                            assert(!before[p as int].outputs.contains(output_name@));
                            assert(check_inputs(ctx0, *node, j + 1) == InputsOutcome::Failed(
                                before,
                                ValidationErrorModel::OutputNotFound(
                                    node.id,
                                    input.name@,
                                    *action_id,
                                    output_name@,
                                ),
                            ));
                            proof {
                                lemma_check_inputs_settled(ctx0, *node, j + 1, total);
                            }
                            return Err(
                                WorkflowValidationError::OutputNotFound {
                                    id: node.id,
                                    name: input.name.clone(),
                                    source_id: *action_id,
                                    source_name: output_name.clone(),
                                },
                            );
                        }
                    },
                }
            },
            _ => {},
        }
        match find_ctx(&ctx.nodes, node.id) {
            None => {
                proof {
                    lemma_check_inputs_settled(ctx0, *node, j + 1, total);
                }
                assert(false);
                return Ok(());
            },
            Some(q) => {
                record_input(&mut ctx.nodes, q, input.name.as_str());
            },
        }
        j = j + 1;
    }
    Ok(())
}

/// Validates `node` against the node state at position `q`.
fn validate_node_at(node: &WorkflowNode, nodes: &mut Vec<WorkflowNodeValidation>, q: usize) -> (r: Result<
    (),
    WorkflowNodeValidationError,
>)
    requires
        q < old(nodes)@.len(),
        forall|i: int| 0 <= i < old(nodes)@.len() ==> (#[trigger] old(nodes)@[i]).wf(),
    ensures
        final(nodes)@.len() == old(nodes)@.len(),
        forall|i: int| 0 <= i < final(nodes)@.len() ==> (#[trigger] final(nodes)@[i]).wf(),
        final(nodes)@.map_values(|n: WorkflowNodeValidation| n@) == old(nodes)@.map_values(
            |n: WorkflowNodeValidation| n@,
        ).update(q as int, spec_validate_node(*node, old(nodes)@[q as int]@).0),
        match spec_validate_node(*node, old(nodes)@[q as int]@).1 {
            Some(e) => r matches Err(err) && err.model() == e,
            None => r is Ok,
        },
{
    let entry = &mut nodes[q];
    let r = validate_node(node, entry);
    proof {
        assert(final(nodes)@.map_values(|n: WorkflowNodeValidation| n@) =~= old(nodes)@.map_values(
            |n: WorkflowNodeValidation| n@,
        ).update(q as int, spec_validate_node(*node, old(nodes)@[q as int]@).0));
    }
    r
}

/// The positions held in a queue.
pub open spec fn positions(q: Seq<usize>) -> Seq<int> {
    q.map_values(|x: usize| x as int)
}

proof fn lemma_successors_settled(nodes: Seq<WorkflowNode>, next: Seq<(String, usize)>, j: int, k: int)
    requires
        0 <= j <= k,
        successors(nodes, next, j) is Err,
    ensures
        successors(nodes, next, k) == successors(nodes, next, j),
    decreases k - j,
{
    if k > j {
        lemma_successors_settled(nodes, next, j, k - 1);
    }
}

/// Queues the nodes that `next` leads to, or names the first that the
/// workflow lacks.
fn push_successors(nodes: &Vec<WorkflowNode>, next: &Vec<(String, usize)>, queue: &mut Vec<usize>) -> (r:
    Result<(), WorkflowValidationError>)
    requires
        forall|j: int| 0 <= j < old(queue)@.len() ==> old(queue)@[j] < nodes@.len(),
    ensures
        match successors(nodes@, next@, next@.len() as int) {
            Ok(s) => r is Ok && positions(final(queue)@) == positions(old(queue)@) + s,
            Err(id) => r matches Err(e) && e.model() == ValidationErrorModel::NodeNotFound(id),
        },
        forall|j: int| 0 <= j < final(queue)@.len() ==> final(queue)@[j] < nodes@.len(),
{
    let ghost start = queue@;
    let mut i: usize = 0;
    while i < next.len()
        invariant
            i <= next@.len(),
            start == old(queue)@,
            forall|j: int| 0 <= j < queue@.len() ==> queue@[j] < nodes@.len(),
            successors(nodes@, next@, i as int) matches Ok(s) && positions(queue@) == positions(start) + s,
        decreases next@.len() - i,
    {
        let ghost before = queue@;
        match find_node(nodes, next[i].1) {
            None => {
                assert(successors(nodes@, next@, i + 1) == Err::<Seq<int>, usize>(next@[i as int].1));
                proof {
                    lemma_successors_settled(nodes@, next@, i + 1, next@.len() as int);
                }
                return Err(WorkflowValidationError::NodeNotFound { id: next[i].1 });
            },
            Some(k) => {
                queue.push(k);
                assert(positions(queue@) =~= positions(before).push(k as int));
            },
        }
        i = i + 1;
    }
    Ok(())
}

/// Validates a workflow breadth first from its first start node: each node's
/// inputs must come from outputs that validation has already recorded, and
/// each node is checked with `validate_node`. Nodes are queued each time a
/// node leads to them. `execution_context` holds a state for each node and
/// is left as validation leaves it. Validation need not end (a workflow whose
/// nodes lead round in a cycle is validated without end); callers test that it
/// ends with [`ends::validation_ends`], which is proved to answer `true` only then,
/// or call [`ends::try_validate_workflow`], which makes that test first.
pub fn validate_workflow(workflow: &Workflow, execution_context: &mut ValidationContext) -> (r: Result<
    (),
    WorkflowValidationError,
>)
    requires
        old(execution_context).wf(),
        validation_outcome(*workflow, old(execution_context).model()) is Some,
    ensures
        final(execution_context).wf(),
        validation_outcome(*workflow, old(execution_context).model()) matches Some(o) && {
            &&& final(execution_context).model() == o.0
            &&& match o.1 {
                Ok(()) => r is Ok,
                Err(e) => r matches Err(err) && err.model() == e,
            }
        },
{
    let start = match find_start(&workflow.nodes) {
        Some(s) => s,
        None => {
            return Err(WorkflowValidationError::NodeTypeNotFound { kind: ActionType::Start });
        },
    };
    let ghost nodes = workflow.nodes@;
    let ghost ctx0 = execution_context.model();
    let ghost fuel = choose|f: nat| run_validation(workflow.nodes@, ctx0, seq![start as int], f) is Some;
    let ghost outcome = run_validation(workflow.nodes@, ctx0, seq![start as int], fuel);
    assert(outcome == validation_outcome(*workflow, ctx0));
    let mut queue: Vec<usize> = Vec::new();
    queue.push(start);
    let mut head: usize = 0;
    let ghost mut left: nat = fuel;
    assert(positions(queue@.subrange(0, 1)) =~= seq![start as int]);
    while head < queue.len()
        invariant
            head <= queue@.len(),
            nodes == workflow.nodes@,
            forall|j: int| 0 <= j < queue@.len() ==> queue@[j] < nodes.len(),
            execution_context.wf(),
            outcome is Some,
            outcome == validation_outcome(*workflow, old(execution_context).model()),
            run_validation(
                nodes,
                execution_context.model(),
                positions(queue@.subrange(head as int, queue@.len() as int)),
                left,
            ) == outcome,
        decreases left,
    {
        let k = queue[head];
        let node = &workflow.nodes[k];
        let ghost pending = positions(queue@.subrange(head as int, queue@.len() as int));
        let ghost c0 = execution_context.model();
        assert(pending[0] == k as int);
        assert(left > 0);
        let ghost step = validation_step(nodes, c0, k as int);
        assert(!(step is Stuck));
        match check_node_inputs(node, execution_context) {
            Err(e) => {
                assert(run_validation(nodes, c0, pending, left) == Some(
                    (execution_context.model(), Err::<(), ValidationErrorModel>(e.model())),
                ));
                return Err(e);
            },
            Ok(()) => {},
        }
        let q = match find_ctx(&execution_context.nodes, node.id) {
            Some(q) => q,
            None => {
                assert(false);
                return Ok(());
            },
        };
        match validate_node_at(node, &mut execution_context.nodes, q) {
            Err(err) => {
                return Err(WorkflowValidationError::Node { id: node.id, err });
            },
            Ok(()) => {},
        }
        let ghost qold = queue@;
        match push_successors(&workflow.nodes, &node.next, &mut queue) {
            Err(e) => {
                return Err(e);
            },
            Ok(()) => {},
        }
        proof {
            let s = successors(nodes, node.next@, node.next@.len() as int)->Ok_0;
            assert(positions(queue@) == positions(qold) + s);
            assert(queue@.len() == qold.len() + s.len());
            assert(pending =~= positions(qold.subrange(head as int, qold.len() as int)));
            assert forall|j: int| 0 <= j < queue@.len() - head - 1 implies #[trigger] positions(
                queue@.subrange(head + 1, queue@.len() as int),
            )[j] == (pending.drop_first() + s)[j] by {
                assert(positions(queue@)[head + 1 + j] == (positions(qold) + s)[head + 1 + j]);
            }
            assert(positions(queue@.subrange(head + 1, queue@.len() as int)) =~= pending.drop_first()
                + s);
        }
        head = head + 1;
        proof {
            left = (left - 1) as nat;
        }
    }
    Ok(())
}

proof fn lemma_insert_text_keeps(names: Seq<Seq<char>>, name: Seq<char>, x: Seq<char>)
    ensures
        names.contains(x) ==> insert_text(names, name).contains(x),
        insert_text(names, name).contains(name),
{
    if !names.contains(name) {
        if names.contains(x) {
            let i = choose|i: int| 0 <= i < names.len() && names[i] == x;
            assert(names.push(name)[i] == x);
        }
        assert(names.push(name)[names.len() as int] == name);
    }
}

proof fn lemma_insert_all_keeps(names: Seq<Seq<char>>, more: Seq<Seq<char>>, x: Seq<char>)
    ensures
        names.contains(x) ==> insert_all(names, more).contains(x),
        more.contains(x) ==> insert_all(names, more).contains(x),
    decreases more.len(),
{
    if more.len() > 0 {
        lemma_insert_all_keeps(names, more.drop_last(), x);
        lemma_insert_text_keeps(insert_all(names, more.drop_last()), more.last(), x);
        if more.contains(x) {
            let i = choose|i: int| 0 <= i < more.len() && more[i] == x;
            if i < more.len() - 1 {
                assert(more.drop_last()[i] == x);
            }
        }
    }
}

/// Validating a node never forgets: its inputs stay as they were, and every
/// output recorded before is still recorded after.
pub proof fn lemma_validate_node_keeps(node: WorkflowNode, m: ValidationModel, x: Seq<char>)
    ensures
        spec_validate_node(node, m).0.id == m.id,
        spec_validate_node(node, m).0.inputs == m.inputs,
        m.outputs.contains(x) ==> spec_validate_node(node, m).0.outputs.contains(x),
{
    lemma_insert_all_keeps(m.outputs, m.inputs, x);
    lemma_insert_all_keeps(m.outputs, output_names(node), x);
    if node.outputs@.len() > 0 {
        lemma_insert_text_keeps(m.outputs, node.outputs@[0].name@, x);
    }
    lemma_insert_text_keeps(m.outputs, "roblox_id"@, x);
    lemma_insert_text_keeps(insert_text(m.outputs, "roblox_id"@), "discord_id"@, x);
}

proof fn lemma_insert_text_only(names: Seq<Seq<char>>, name: Seq<char>, x: Seq<char>)
    ensures
        insert_text(names, name).contains(x) <==> (names.contains(x) || x == name),
{
    lemma_insert_text_keeps(names, name, x);
    if !names.contains(name) && names.push(name).contains(x) {
        let i = choose|i: int| 0 <= i < names.len() + 1 && names.push(name)[i] == x;
        if i < names.len() {
            assert(names[i] == x);
        }
    }
}

/// Validating a node that looks up a RoWifi user: with exactly one input it
/// passes and records, besides the outputs recorded before, exactly the two
/// outputs that running it writes, `roblox_id` and `discord_id`; with any other
/// number of inputs it is refused and nothing is recorded.
pub proof fn lemma_rowifi_user_outputs(node: WorkflowNode, m: ValidationModel, x: Seq<char>)
    requires
        node.metadata is GetRoWifiUser,
    ensures
        m.inputs.len() == 1 ==> {
            let v = spec_validate_node(node, m);
            &&& v.1 is None
            &&& v.0.id == m.id
            &&& v.0.inputs == m.inputs
            &&& v.0.outputs.contains("roblox_id"@)
            &&& v.0.outputs.contains("discord_id"@)
            &&& (v.0.outputs.contains(x) <==> (m.outputs.contains(x) || x == "roblox_id"@ || x == "discord_id"@))
        },
        m.inputs.len() != 1 ==> spec_validate_node(node, m) == (
            m,
            Some(NodeValidationErrorModel::IncorrectInputs(m.inputs.len() as u32, 1)),
        ),
{
    let once = insert_text(m.outputs, "roblox_id"@);
    lemma_insert_text_only(m.outputs, "roblox_id"@, x);
    lemma_insert_text_only(once, "discord_id"@, x);
    lemma_insert_text_only(m.outputs, "roblox_id"@, "roblox_id"@);
    lemma_insert_text_only(once, "discord_id"@, "roblox_id"@);
    lemma_insert_text_only(once, "discord_id"@, "discord_id"@);
}

proof fn lemma_insert_all_only(names: Seq<Seq<char>>, more: Seq<Seq<char>>, x: Seq<char>)
    ensures
        insert_all(names, more).contains(x) <==> (names.contains(x) || more.contains(x)),
    decreases more.len(),
{
    lemma_insert_all_keeps(names, more, x);
    if more.len() > 0 {
        lemma_insert_all_only(names, more.drop_last(), x);
        lemma_insert_text_only(insert_all(names, more.drop_last()), more.last(), x);
        if more.drop_last().contains(x) {
            let i = choose|i: int| 0 <= i < more.len() - 1 && more.drop_last()[i] == x;
            assert(more[i] == x);
        }
        if x == more.last() {
            assert(more[more.len() - 1] == x);
        }
    }
}

proof fn lemma_missing_input_none(m: ValidationModel, names: Seq<Seq<char>>)
    requires
        forall|i: int| 0 <= i < names.len() ==> m.inputs.contains(#[trigger] names[i]),
    ensures
        missing_input(m, names) is None,
    decreases names.len(),
{
    if names.len() > 0 {
        assert forall|i: int| 0 <= i < names.drop_last().len() implies m.inputs.contains(
            #[trigger] names.drop_last()[i],
        ) by {
            assert(names.drop_last()[i] == names[i]);
        }
        lemma_missing_input_none(m, names.drop_last());
        assert(m.inputs.contains(names[names.len() - 1]));
    }
}

/// What validating the other kinds of node records: a start node records its
/// inputs as outputs; a message node records nothing; a node that joins
/// strings or adds numbers needs an input and exactly one output, and records
/// that output; a node that reads a datastore entry, given its universe,
/// datastore and entry ids, records the node's outputs. Outputs recorded
/// before stay recorded, and nothing else is added.
pub proof fn lemma_validation_outputs(node: WorkflowNode, m: ValidationModel, x: Seq<char>)
    ensures
        ({
            let v = spec_validate_node(node, m);
            &&& v.0.id == m.id
            &&& v.0.inputs == m.inputs
            &&& node.metadata is Start ==> v.1 is None && (v.0.outputs.contains(x) <==> (m.outputs.contains(x)
                || m.inputs.contains(x)))
            &&& node.metadata is SendMessage ==> v == (m, None::<NodeValidationErrorModel>)
            &&& (node.metadata is JoinString || node.metadata is Add) ==> {
                &&& node.inputs@.len() == 0 ==> v == (m, Some(NodeValidationErrorModel::IncorrectInputs(0, 1)))
                &&& (node.inputs@.len() > 0 && node.outputs@.len() != 1) ==> v == (
                    m,
                    Some(NodeValidationErrorModel::IncorrectOutputs(node.outputs@.len() as u32, 1)),
                )
                &&& (node.inputs@.len() > 0 && node.outputs@.len() == 1) ==> v.1 is None && (v.0.outputs.contains(x)
                    <==> (m.outputs.contains(x) || x == node.outputs@[0].name@))
            }
            &&& (node.metadata is GetDatastoreEntry && m.inputs.contains("universe_id"@) && m.inputs.contains(
                "datastore_id"@,
            ) && m.inputs.contains("entry_id"@)) ==> v.1 is None && (v.0.outputs.contains(x) <==> (
            m.outputs.contains(x) || exists|i: int| 0 <= i < node.outputs@.len() && #[trigger] node.outputs@[i].name@ == x))
        }),
{
    lemma_insert_all_only(m.outputs, m.inputs, x);
    lemma_insert_all_only(m.outputs, output_names(node), x);
    if node.outputs@.len() > 0 {
        lemma_insert_text_only(m.outputs, node.outputs@[0].name@, x);
    }
    if output_names(node).contains(x) {
        let i = choose|i: int| 0 <= i < output_names(node).len() && output_names(node)[i] == x;
        assert(node.outputs@[i].name@ == x);
    }
    if exists|i: int| 0 <= i < node.outputs@.len() && #[trigger] node.outputs@[i].name@ == x {
        let i = choose|i: int| 0 <= i < node.outputs@.len() && #[trigger] node.outputs@[i].name@ == x;
        assert(output_names(node)[i] == x);
    }
    let names = seq!["universe_id"@, "datastore_id"@, "entry_id"@];
    if m.inputs.contains(names[0]) && m.inputs.contains(names[1]) && m.inputs.contains(names[2]) {
        lemma_missing_input_none(m, names);
    }
}

} // verus!
