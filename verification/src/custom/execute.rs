//! Running a workflow node by node. The nodes that talk to Discord, Roblox or
//! the database hand back a request; whoever runs the workflow performs it and
//! hands back the reply, which finishes the node.
use vstd::prelude::*;

use crate::database::DatabaseError;
use crate::error::ErrorSource;
use crate::id::{ChannelId, GuildId, UserId};
use crate::models::custom::{
    ActionInput, ActionInputSource, ActionMetadata, ActionType, Value, Workflow, WorkflowNode,
};
use crate::models::user::RoUser;
use crate::roblox::id::{UniverseId, UserId as RobloxUserId};
use crate::text::{push_str, signed_decimal, texts};
use super::json::{get_path, json_at, replaced_at, set_path, split_dots, split_path, JsonValue};
use crate::models::custom::{ActionOutput, ValueType};
use vstd::utf8::{encode_utf8, is_char_boundary};

verus! {

/// What a value holds, as plain values.
pub enum ValueModel {
    String(Seq<char>),
    Number(i64),
}

impl Value {
    pub open spec fn model(self) -> ValueModel {
        match self {
            Value::String(s) => ValueModel::String(s@),
            Value::Number(n) => ValueModel::Number(n),
        }
    }
}

/// Named values, as plain values.
pub open spec fn entries(v: Seq<(String, Value)>) -> Seq<(Seq<char>, ValueModel)> {
    v.map_values(|e: (String, Value)| (e.0@, e.1.model()))
}

/// The position of the value named `name`.
pub open spec fn entry_index(m: Seq<(Seq<char>, ValueModel)>, name: Seq<char>) -> Option<int>
    decreases m.len(),
{
    if m.len() == 0 {
        None
    } else {
        match entry_index(m.drop_last(), name) {
            Some(i) => Some(i),
            None => if m.last().0 == name {
                Some(m.len() - 1)
            } else {
                None
            },
        }
    }
}

/// The value named `name`.
pub open spec fn lookup(m: Seq<(Seq<char>, ValueModel)>, name: Seq<char>) -> Option<ValueModel> {
    match entry_index(m, name) {
        Some(i) => Some(m[i].1),
        None => None,
    }
}

/// `m` with `name` set to `v`: its value replaced where the name is present,
/// added at the end otherwise.
pub open spec fn set_entry(m: Seq<(Seq<char>, ValueModel)>, name: Seq<char>, v: ValueModel) -> Seq<
    (Seq<char>, ValueModel),
> {
    match entry_index(m, name) {
        Some(i) => m.update(i, (name, v)),
        None => m.push((name, v)),
    }
}

proof fn lemma_entry_index_extends(m: Seq<(Seq<char>, ValueModel)>, name: Seq<char>, a: int, b: int)
    requires
        0 <= a <= b <= m.len(),
        entry_index(m.take(a), name) is Some,
    ensures
        entry_index(m.take(b), name) == entry_index(m.take(a), name),
    decreases b - a,
{
    if b > a {
        lemma_entry_index_extends(m, name, a, b - 1);
        assert(m.take(b).drop_last() =~= m.take(b - 1));
    }
}

proof fn lemma_entry_index_found(m: Seq<(Seq<char>, ValueModel)>, name: Seq<char>)
    ensures
        entry_index(m, name) matches Some(i) ==> 0 <= i < m.len() && m[i].0 == name,
        entry_index(m, name) is None ==> forall|j: int| 0 <= j < m.len() ==> m[j].0 != name,
    decreases m.len(),
{
    if m.len() > 0 {
        lemma_entry_index_found(m.drop_last(), name);
        assert forall|j: int| 0 <= j < m.len() - 1 implies m.drop_last()[j] == m[j] by {}
    }
}

/// The position of the value named `name` in `values`.
pub fn find_entry(values: &Vec<(String, Value)>, name: &str) -> (r: Option<usize>)
    ensures
        r is None <==> entry_index(entries(values@), name@) is None,
        r matches Some(i) ==> entry_index(entries(values@), name@) == Some(i as int) && i < values@.len(),
{
    let ghost m = entries(values@);
    let mut i: usize = 0;
    while i < values.len()
        invariant
            i <= values@.len(),
            m == entries(values@),
            entry_index(m.take(i as int), name@) is None,
        decreases values@.len() - i,
    {
        assert(m.take(i + 1).drop_last() =~= m.take(i as int));
        if crate::text::str_eq(values[i].0.as_str(), name) {
            assert(entry_index(m.take(i + 1), name@) == Some(i as int));
            proof {
                lemma_entry_index_extends(m, name@, i + 1, m.len() as int);
            }
            assert(m.take(m.len() as int) =~= m);
            return Some(i);
        }
        i = i + 1;
    }
    assert(m.take(i as int) =~= m);
    None
}

/// Sets `name` to `value` among `values`.
pub fn set_value(values: &mut Vec<(String, Value)>, name: &str, value: Value)
    ensures
        entries(final(values)@) == set_entry(entries(old(values)@), name@, value.model()),
{
    match find_entry(values, name) {
        Some(i) => {
            let ghost before = entries(values@);
            values.set(i, (name.to_owned(), value));
            assert(entries(values@) =~= before.update(i as int, (name@, value.model())));
        },
        None => {
            let ghost before = entries(values@);
            values.push((name.to_owned(), value));
            assert(entries(values@) =~= before.push((name@, value.model())));
        },
    }
}

/// What running one node has recorded: the values it was given and the
/// values it produced, by name.
pub struct WorkflowNodeExecution {
    pub id: usize,
    pub inputs: Vec<(String, Value)>,
    pub outputs: Vec<(String, Value)>,
}

pub struct ExecutionContext {
    pub nodes: Vec<WorkflowNodeExecution>,
}

/// How a node ended; the workflow goes on with the node that the node's
/// `next` names for this outcome.
pub struct WorkflowExecutionNodeResult {
    pub outcome: String,
}

pub enum WorkflowNodeExecutionError {
    InputNotFound,
    OutputNotFound,
    InputTypeMismatch,
    IncorrectInputFormat,
    IncorrectOutputFormat,
    Discord(Box<dyn ErrorSource>),
    Roblox(Box<dyn ErrorSource>),
    Database(DatabaseError),
}

impl From<DatabaseError> for WorkflowNodeExecutionError {
    fn from(err: DatabaseError) -> (r: Self) {
        WorkflowNodeExecutionError::Database(err)
    }
}

impl vstd::std_specs::convert::FromSpecImpl<DatabaseError> for WorkflowNodeExecutionError {
    open spec fn obeys_from_spec() -> bool {
        true
    }

    open spec fn from_spec(err: DatabaseError) -> Self {
        WorkflowNodeExecutionError::Database(err)
    }
}

/// Outside work that a node needs done before it can finish.
pub enum NodeRequest {
    SendMessage { channel: ChannelId, content: String },
    GetDatastoreEntry { universe_id: UniverseId, datastore_id: String, entry_id: String },
    UpdateDatastoreEntry { universe_id: UniverseId, datastore_id: String, entry_id: String },
    GetRoWifiUser { user_id: UserId },
    PublishUniverseMessage { universe_id: UniverseId, topic: String, message: String },
    GetIdFromUsername { username: String },
    GetUsernameFromId { user_id: RobloxUserId },
    /// Writes the edited entry back.
    WriteDatastoreEntry {
        universe_id: UniverseId,
        datastore_id: String,
        entry_id: String,
        value: JsonValue,
        users: Vec<String>,
        attributes: JsonValue,
    },
}

pub enum NodeStep {
    Finished(WorkflowExecutionNodeResult),
    Request(NodeRequest),
}

impl ValueModel {
    /// The text of the value: a string as it is, a number in decimal.
    pub open spec fn text(self) -> Seq<char> {
        match self {
            ValueModel::String(s) => s,
            ValueModel::Number(n) => signed_decimal(n as int),
        }
    }
}

/// The node's inputs' values, joined, taking the first `k` of them.
pub open spec fn joined(m: Seq<(Seq<char>, ValueModel)>, inputs: Seq<ActionInput>, k: int) -> Seq<char>
    decreases k,
{
    if k <= 0 {
        Seq::empty()
    } else {
        joined(m, inputs, k - 1) + lookup(m, inputs[k - 1].name@)->0.text()
    }
}

/// The wrapping sum of the first `k` of the node's inputs, or `None` when one
/// of them is a string.
pub open spec fn summed(m: Seq<(Seq<char>, ValueModel)>, inputs: Seq<ActionInput>, k: int) -> Option<i64>
    decreases k,
{
    if k <= 0 {
        Some(0)
    } else {
        match summed(m, inputs, k - 1) {
            None => None,
            Some(s) => match lookup(m, inputs[k - 1].name@)->0 {
                ValueModel::Number(n) => Some(s.wrapping_add(n)),
                ValueModel::String(_) => None,
            },
        }
    }
}

/// `m` with each of `more` set in turn.
pub open spec fn set_all(m: Seq<(Seq<char>, ValueModel)>, more: Seq<(Seq<char>, ValueModel)>) -> Seq<
    (Seq<char>, ValueModel),
>
    decreases more.len(),
{
    if more.len() == 0 {
        m
    } else {
        let last = more.last();
        set_entry(set_all(m, more.drop_last()), last.0, last.1)
    }
}

/// Every input of the node has a value.
pub open spec fn inputs_given(node: WorkflowNode, m: Seq<(Seq<char>, ValueModel)>) -> bool {
    forall|i: int| 0 <= i < node.inputs@.len() ==> lookup(m, #[trigger] node.inputs@[i].name@) is Some
}

/// The position of the first `}` byte at or after `i`, unless a line break or
/// the end comes first.
pub open spec fn closing_brace_byte(b: Seq<u8>, i: int) -> Option<int>
    decreases b.len() - i,
{
    if i < 0 || i >= b.len() || b[i] == 10u8 {
        None
    } else if b[i] == 125u8 {
        Some(i)
    } else {
        closing_brace_byte(b, i + 1)
    }
}

pub proof fn lemma_closing_brace_byte(b: Seq<u8>, i: int)
    ensures
        closing_brace_byte(b, i) matches Some(j) ==> i <= j < b.len() && b[j] == 125u8,
    decreases b.len() - i,
{
    if 0 <= i < b.len() && b[i] != 10u8 && b[i] != 125u8 {
        lemma_closing_brace_byte(b, i + 1);
    }
}

/// The byte ranges of the placeholders of a message from position `p` on:
/// a `{`, then the shortest run without a line break up to a `}`, taken
/// leftmost first and without overlapping.
pub open spec fn placeholders(b: Seq<u8>, p: int) -> Seq<(int, int)>
    decreases b.len() - p,
{
    if p < 0 || p >= b.len() {
        Seq::empty()
    } else if b[p] == 123u8 && closing_brace_byte(b, p + 1) is Some {
        let j = closing_brace_byte(b, p + 1)->0;
        proof {
            lemma_closing_brace_byte(b, p + 1);
        }
        seq![(p, j + 1)] + placeholders(b, j + 1)
    } else {
        placeholders(b, p + 1)
    }
}

/// The value whose name is spelled by the bytes `name`.
pub open spec fn lookup_encoded(m: Seq<(Seq<char>, ValueModel)>, name: Seq<u8>) -> Option<ValueModel>
    decreases m.len(),
{
    if m.len() == 0 {
        None
    } else {
        match lookup_encoded(m.drop_last(), name) {
            Some(v) => Some(v),
            None => if encode_utf8(m.last().0) == name {
                Some(m.last().1)
            } else {
                None
            },
        }
    }
}

/// The message after its first `k` placeholders (byte ranges of the unfilled
/// message `b`) were filled in: each placeholder naming an input is replaced,
/// at the same byte range, in the message as filled so far. `None` when a
/// range no longer falls on character boundaries of the message as filled so
/// far, where replacing it would panic.
pub open spec fn filled(b: Seq<u8>, ranges: Seq<(int, int)>, m: Seq<(Seq<char>, ValueModel)>, k: int) -> Option<
    Seq<u8>,
>
    decreases k,
{
    if k <= 0 {
        Some(b)
    } else {
        match filled(b, ranges, m, k - 1) {
            None => None,
            Some(nb) => {
                let (s, e) = ranges[k - 1];
                match lookup_encoded(m, b.subrange(s + 1, e - 1)) {
                    None => Some(nb),
                    Some(v) => if s <= e <= nb.len() && is_char_boundary(nb, s) && is_char_boundary(nb, e) {
                        Some(nb.subrange(0, s) + encode_utf8(v.text()) + nb.subrange(e, nb.len() as int))
                    } else {
                        None
                    },
                }
            },
        }
    }
}

/// The bytes of the message `message` with its placeholders filled in from
/// `m`, if filling them in does not fail.
pub open spec fn filled_message(message: Seq<char>, m: Seq<(Seq<char>, ValueModel)>) -> Option<Seq<u8>> {
    let b = encode_utf8(message);
    filled(b, placeholders(b, 0), m, placeholders(b, 0).len() as int)
}

/// Replaces the bytes `start..end` of `s` with `with` (`String::replace_range`).
#[verifier::external_body]
fn replace_byte_range(s: &mut String, start: usize, end: usize, with: &str)
    requires
        start <= end <= encode_utf8(old(s)@).len(),
        is_char_boundary(encode_utf8(old(s)@), start as int),
        is_char_boundary(encode_utf8(old(s)@), end as int),
    ensures
        encode_utf8(final(s)@) == encode_utf8(old(s)@).subrange(0, start as int) + encode_utf8(with@)
            + encode_utf8(old(s)@).subrange(end as int, encode_utf8(old(s)@).len() as int),
{
    s.replace_range(start..end, with);
}

proof fn lemma_placeholders_bounds(b: Seq<u8>, p: int)
    requires
        0 <= p,
    ensures
        forall|i: int| 0 <= i < placeholders(b, p).len() ==> p <= #[trigger] placeholders(b, p)[i].0
            && placeholders(b, p)[i].0 + 2 <= placeholders(b, p)[i].1 <= b.len() && b[placeholders(b, p)[i].0]
            == 123u8 && b[placeholders(b, p)[i].1 - 1] == 125u8,
    decreases b.len() - p,
{
    if p < b.len() {
        if b[p] == 123u8 && closing_brace_byte(b, p + 1) is Some {
            let j = closing_brace_byte(b, p + 1)->0;
            lemma_closing_brace_byte(b, p + 1);
            lemma_placeholders_bounds(b, j + 1);
            let rest = placeholders(b, j + 1);
            assert forall|i: int| 0 <= i < placeholders(b, p).len() implies p <= #[trigger] placeholders(b, p)[i].0
                && placeholders(b, p)[i].0 + 2 <= placeholders(b, p)[i].1 <= b.len() && b[placeholders(b, p)[i].0]
                == 123u8 && b[placeholders(b, p)[i].1 - 1] == 125u8 by {
                assert(placeholders(b, p) == seq![(p, j + 1)] + rest);
                if i > 0 {
                    assert(placeholders(b, p)[i] == rest[i - 1]);
                } else {
                    assert(placeholders(b, p)[i] == (p, j + 1));
                }
            }
        } else {
            lemma_placeholders_bounds(b, p + 1);
            assert(placeholders(b, p) == placeholders(b, p + 1));
        }
    } else {
        assert(placeholders(b, p).len() == 0);
    }
}

/// The byte ranges of the message's placeholders.
fn placeholder_ranges(message: &str) -> (r: Vec<(usize, usize, String)>)
    ensures
        r@.map_values(|x: (usize, usize, String)| (x.0 as int, x.1 as int)) == placeholders(encode_utf8(message@), 0),
        forall|i: int| 0 <= i < r@.len() ==> 0 <= #[trigger] r@[i].0 < r@[i].1 <= encode_utf8(message@).len()
            && encode_utf8(message@)[r@[i].0 as int] == 123u8 && encode_utf8(message@)[r@[i].1 - 1] == 125u8 && r@[i].0
            + 2 <= r@[i].1,
{
    let r = crate::models::bind::pattern_matches(message);
    proof {
        let b = encode_utf8(message@);
        lemma_placeholders_bounds(b, 0);
        assert forall|i: int| 0 <= i < r@.len() implies 0 <= #[trigger] r@[i].0 < r@[i].1 <= b.len() && b[r@[i].0 as int]
            == 123u8 && b[r@[i].1 - 1] == 125u8 && r@[i].0 + 2 <= r@[i].1 by {
            assert(r@.map_values(|x: (usize, usize, String)| (x.0 as int, x.1 as int))[i] == (r@[i].0 as int, r@[i].1 as int));
            assert(placeholders(b, 0)[i] == (r@[i].0 as int, r@[i].1 as int));
            assert(0 <= placeholders(b, 0)[i].0);
        }
    }
    r
}

proof fn lemma_lookup_encoded_extends(m: Seq<(Seq<char>, ValueModel)>, name: Seq<u8>, a: int, b: int)
    requires
        0 <= a <= b <= m.len(),
        lookup_encoded(m.take(a), name) is Some,
    ensures
        lookup_encoded(m.take(b), name) == lookup_encoded(m.take(a), name),
    decreases b - a,
{
    if b > a {
        lemma_lookup_encoded_extends(m, name, a, b - 1);
        assert(m.take(b).drop_last() =~= m.take(b - 1));
    }
}

proof fn lemma_filled_settled(
    b: Seq<u8>,
    ranges: Seq<(int, int)>,
    m: Seq<(Seq<char>, ValueModel)>,
    j: int,
    k: int,
)
    requires
        0 <= j <= k,
        filled(b, ranges, m, j) is None,
    ensures
        filled(b, ranges, m, k) is None,
    decreases k - j,
{
    if k > j {
        lemma_filled_settled(b, ranges, m, j, k - 1);
    }
}

/// Whether `name` is spelled by the bytes `b[from..to]`.
fn bytes_match(name: &[u8], b: &[u8], from: usize, to: usize) -> (r: bool)
    requires
        from <= to <= b@.len(),
    ensures
        r == (name@ == b@.subrange(from as int, to as int)),
{
    if name.len() != to - from {
        return false;
    }
    let mut i: usize = 0;
    while i < name.len()
        invariant
            i <= name@.len(),
            name@.len() == to - from,
            from <= to <= b@.len(),
            forall|k: int| 0 <= k < i ==> name@[k] == b@[from + k],
        decreases name@.len() - i,
    {
        if name[i] != b[from + i] {
            return false;
        }
        i = i + 1;
    }
    assert(name@ =~= b@.subrange(from as int, to as int));
    true
}

/// The position of the first of `inputs` whose name is spelled by the bytes
/// `b[from..to]`.
fn find_encoded(inputs: &Vec<(String, Value)>, b: &[u8], from: usize, to: usize) -> (r: Option<usize>)
    requires
        from <= to <= b@.len(),
    ensures
        match lookup_encoded(entries(inputs@), b@.subrange(from as int, to as int)) {
            Some(v) => r matches Some(i) && i < inputs@.len() && inputs@[i as int].1.model() == v,
            None => r is None,
        },
{
    let ghost m = entries(inputs@);
    let ghost name = b@.subrange(from as int, to as int);
    let mut i: usize = 0;
    while i < inputs.len()
        invariant
            i <= inputs@.len(),
            from <= to <= b@.len(),
            m == entries(inputs@),
            name == b@.subrange(from as int, to as int),
            lookup_encoded(m.take(i as int), name) is None,
        decreases inputs@.len() - i,
    {
        assert(m.take(i + 1).drop_last() =~= m.take(i as int));
        let key = inputs[i].0.as_str();
        if bytes_match(key.as_bytes(), b, from, to) {
            assert(lookup_encoded(m.take(i + 1), name) == Some(inputs@[i as int].1.model()));
            proof {
                lemma_lookup_encoded_extends(m, name, i + 1, m.len() as int);
            }
            assert(m.take(m.len() as int) =~= m);
            return Some(i);
        }
        i = i + 1;
    }
    assert(m.take(i as int) =~= m);
    None
}

/// The message with its placeholders filled in from `inputs` (see
/// `filled`), or `None` where a placeholder's byte range no longer falls on
/// character boundaries of the message as filled so far.
pub fn fill_message(message: &str, inputs: &Vec<(String, Value)>) -> (r: Option<String>)
    ensures
        match filled_message(message@, entries(inputs@)) {
            Some(bytes) => r matches Some(s) && encode_utf8(s@) == bytes,
            None => r is None,
        },
{
    let b = message.as_bytes();
    let ranges = placeholder_ranges(message);
    let ghost places = placeholders(b@, 0);
    let ghost m = entries(inputs@);
    let mut out = message.to_owned();
    let mut k: usize = 0;
    while k < ranges.len()
        invariant
            k <= ranges@.len(),
            b@ == encode_utf8(message@),
            m == entries(inputs@),
            ranges@.map_values(|x: (usize, usize, String)| (x.0 as int, x.1 as int)) == places,
            places == placeholders(b@, 0),
            forall|i: int| 0 <= i < ranges@.len() ==> 0 <= #[trigger] ranges@[i].0 < ranges@[i].1 <= b@.len()
                && ranges@[i].0 + 2 <= ranges@[i].1,
            filled(b@, places, m, k as int) == Some(encode_utf8(out@)),
        decreases ranges@.len() - k,
    {
        let s = ranges[k].0;
        let e = ranges[k].1;
        assert(places[k as int] == (s as int, e as int));
        match find_encoded(inputs, b, s + 1, e - 1) {
            None => {},
            Some(idx) => {
                let text = inputs[idx].1.to_text();
                proof {
                    vstd::utf8::encode_utf8_valid_utf8(out@);
                }
                if out.as_str().is_char_boundary(s) && out.as_str().is_char_boundary(e) {
                    replace_byte_range(&mut out, s, e, text.as_str());
                } else {
                    proof {
                        lemma_filled_settled(b@, places, m, k + 1, places.len() as int);
                    }
                    return None;
                }
            },
        }
        k = k + 1;
    }
    Some(out)
}

pub enum NodeErrorModel {
    InputNotFound,
    OutputNotFound,
    InputTypeMismatch,
    IncorrectInputFormat,
    IncorrectOutputFormat,
    Discord,
    Roblox,
    Database,
}

impl WorkflowNodeExecutionError {
    pub open spec fn model(&self) -> NodeErrorModel {
        match self {
            WorkflowNodeExecutionError::InputNotFound => NodeErrorModel::InputNotFound,
            WorkflowNodeExecutionError::OutputNotFound => NodeErrorModel::OutputNotFound,
            WorkflowNodeExecutionError::InputTypeMismatch => NodeErrorModel::InputTypeMismatch,
            WorkflowNodeExecutionError::IncorrectInputFormat => NodeErrorModel::IncorrectInputFormat,
            WorkflowNodeExecutionError::IncorrectOutputFormat => NodeErrorModel::IncorrectOutputFormat,
            WorkflowNodeExecutionError::Discord(_) => NodeErrorModel::Discord,
            WorkflowNodeExecutionError::Roblox(_) => NodeErrorModel::Roblox,
            WorkflowNodeExecutionError::Database(_) => NodeErrorModel::Database,
        }
    }
}

/// A request as plain values; a message's content is given by its bytes.
pub enum RequestModel {
    SendMessage(ChannelId, Seq<u8>),
    GetDatastoreEntry(UniverseId, Seq<char>, Seq<char>),
    UpdateDatastoreEntry(UniverseId, Seq<char>, Seq<char>),
    GetRoWifiUser(UserId),
    PublishUniverseMessage(UniverseId, Seq<char>, Seq<char>),
    GetIdFromUsername(Seq<char>),
    GetUsernameFromId(RobloxUserId),
    WriteDatastoreEntry(UniverseId, Seq<char>, Seq<char>, JsonValue, Seq<Seq<char>>, JsonValue),
}

impl NodeRequest {
    pub open spec fn model(&self) -> RequestModel {
        match self {
            NodeRequest::SendMessage { channel, content } => RequestModel::SendMessage(*channel, encode_utf8(content@)),
            NodeRequest::GetDatastoreEntry { universe_id, datastore_id, entry_id } => RequestModel::GetDatastoreEntry(
                *universe_id,
                datastore_id@,
                entry_id@,
            ),
            NodeRequest::UpdateDatastoreEntry { universe_id, datastore_id, entry_id } => RequestModel::UpdateDatastoreEntry(
                *universe_id,
                datastore_id@,
                entry_id@,
            ),
            NodeRequest::GetRoWifiUser { user_id } => RequestModel::GetRoWifiUser(*user_id),
            NodeRequest::PublishUniverseMessage { universe_id, topic, message } => RequestModel::PublishUniverseMessage(
                *universe_id,
                topic@,
                message@,
            ),
            NodeRequest::GetIdFromUsername { username } => RequestModel::GetIdFromUsername(username@),
            NodeRequest::GetUsernameFromId { user_id } => RequestModel::GetUsernameFromId(*user_id),
            NodeRequest::WriteDatastoreEntry { universe_id, datastore_id, entry_id, value, users, attributes } => RequestModel::WriteDatastoreEntry(
                *universe_id,
                datastore_id@,
                entry_id@,
                *value,
                texts(users@),
                *attributes,
            ),
        }
    }
}

pub enum StepModel {
    Finished(Seq<char>),
    Request(RequestModel),
    Failed(NodeErrorModel),
}

pub open spec fn step_model(r: Result<NodeStep, WorkflowNodeExecutionError>) -> StepModel {
    match r {
        Ok(NodeStep::Finished(res)) => StepModel::Finished(res.outcome@),
        Ok(NodeStep::Request(req)) => StepModel::Request(req.model()),
        Err(e) => StepModel::Failed(e.model()),
    }
}

/// The universe named by the `universe_id` input.
pub open spec fn universe_of(m: Seq<(Seq<char>, ValueModel)>) -> Result<UniverseId, NodeErrorModel> {
    match lookup(m, "universe_id"@) {
        None => Err(NodeErrorModel::InputNotFound),
        Some(ValueModel::Number(n)) => Ok(UniverseId(n as u64)),
        Some(ValueModel::String(_)) => Err(NodeErrorModel::InputTypeMismatch),
    }
}

/// The text of the input `name`.
pub open spec fn text_input(m: Seq<(Seq<char>, ValueModel)>, name: Seq<char>) -> Result<Seq<char>, NodeErrorModel> {
    match lookup(m, name) {
        None => Err(NodeErrorModel::InputNotFound),
        Some(v) => Ok(v.text()),
    }
}

/// The universe, datastore and entry that a datastore node works on.
pub open spec fn datastore_target(m: Seq<(Seq<char>, ValueModel)>) -> Result<(UniverseId, Seq<char>, Seq<char>), NodeErrorModel> {
    match universe_of(m) {
        Err(e) => Err(e),
        Ok(u) => match text_input(m, "datastore_id"@) {
            Err(e) => Err(e),
            Ok(d) => match text_input(m, "entry_id"@) {
                Err(e) => Err(e),
                Ok(en) => Ok((u, d, en)),
            },
        },
    }
}

/// What running `node` with the values `inputs` does before any outside
/// work: the node's outputs afterwards (starting from `outputs`), and whether
/// it finished (with its outcome), needs outside work, or failed.
pub open spec fn spec_execute_node(
    node: WorkflowNode,
    inputs: Seq<(Seq<char>, ValueModel)>,
    outputs: Seq<(Seq<char>, ValueModel)>,
) -> (Seq<(Seq<char>, ValueModel)>, StepModel) {
    match node.metadata {
        ActionMetadata::Start => (set_all(outputs, inputs), StepModel::Finished("next"@)),
        ActionMetadata::SendMessage(sm) => (
            outputs,
            StepModel::Request(RequestModel::SendMessage(sm.channel, filled_message(sm.message@, inputs)->0)),
        ),
        ActionMetadata::JoinString => if node.outputs@.len() == 0 {
            (outputs, StepModel::Failed(NodeErrorModel::OutputNotFound))
        } else {
            (
                set_entry(
                    outputs,
                    node.outputs@[0].name@,
                    ValueModel::String(joined(inputs, node.inputs@, node.inputs@.len() as int)),
                ),
                StepModel::Finished("next"@),
            )
        },
        ActionMetadata::Add => match summed(inputs, node.inputs@, node.inputs@.len() as int) {
            None => (outputs, StepModel::Failed(NodeErrorModel::InputTypeMismatch)),
            Some(sum) => if node.outputs@.len() == 0 {
                (outputs, StepModel::Failed(NodeErrorModel::OutputNotFound))
            } else {
                (set_entry(outputs, node.outputs@[0].name@, ValueModel::Number(sum)), StepModel::Finished("next"@))
            },
        },
        ActionMetadata::GetDatastoreEntry => match datastore_target(inputs) {
            Err(e) => (outputs, StepModel::Failed(e)),
            Ok((u, d, en)) => (outputs, StepModel::Request(RequestModel::GetDatastoreEntry(u, d, en))),
        },
        ActionMetadata::UpdateDatastoreEntry => match datastore_target(inputs) {
            Err(e) => (outputs, StepModel::Failed(e)),
            Ok((u, d, en)) => (outputs, StepModel::Request(RequestModel::UpdateDatastoreEntry(u, d, en))),
        },
        ActionMetadata::GetRoWifiUser => if inputs.len() == 0 {
            (outputs, StepModel::Failed(NodeErrorModel::InputNotFound))
        } else {
            match inputs[0].1 {
                ValueModel::Number(n) => (outputs, StepModel::Request(RequestModel::GetRoWifiUser(UserId(n as u64)))),
                ValueModel::String(_) => (outputs, StepModel::Failed(NodeErrorModel::IncorrectInputFormat)),
            }
        },
        ActionMetadata::PublishUniverseMessage => match universe_of(inputs) {
            Err(e) => (outputs, StepModel::Failed(e)),
            Ok(u) => match text_input(inputs, "topic"@) {
                Err(e) => (outputs, StepModel::Failed(e)),
                Ok(t) => match text_input(inputs, "message"@) {
                    Err(e) => (outputs, StepModel::Failed(e)),
                    Ok(msg) => (outputs, StepModel::Request(RequestModel::PublishUniverseMessage(u, t, msg))),
                },
            },
        },
        ActionMetadata::GetIdFromUsername => if inputs.len() == 0 {
            (outputs, StepModel::Failed(NodeErrorModel::InputNotFound))
        } else {
            match inputs[0].1 {
                ValueModel::Number(_) => (outputs, StepModel::Failed(NodeErrorModel::IncorrectInputFormat)),
                ValueModel::String(name) => if node.outputs@.len() == 0 {
                    (outputs, StepModel::Failed(NodeErrorModel::OutputNotFound))
                } else {
                    (outputs, StepModel::Request(RequestModel::GetIdFromUsername(name)))
                },
            }
        },
        ActionMetadata::GetUsernameFromId => if inputs.len() == 0 {
            (outputs, StepModel::Failed(NodeErrorModel::InputNotFound))
        } else {
            match inputs[0].1 {
                ValueModel::String(_) => (outputs, StepModel::Failed(NodeErrorModel::IncorrectInputFormat)),
                ValueModel::Number(n) => if node.outputs@.len() == 0 {
                    (outputs, StepModel::Failed(NodeErrorModel::OutputNotFound))
                } else {
                    (outputs, StepModel::Request(RequestModel::GetUsernameFromId(RobloxUserId(n as u64))))
                },
            }
        },
    }
}

/// What running `node` needs of its inputs so as not to panic: a join or a
/// sum reads each of the node's inputs, and a message's placeholders must
/// stay on character boundaries as they are filled in.
pub open spec fn node_runnable(node: WorkflowNode, inputs: Seq<(Seq<char>, ValueModel)>) -> bool {
    match node.metadata {
        ActionMetadata::JoinString | ActionMetadata::Add => inputs_given(node, inputs),
        ActionMetadata::SendMessage(sm) => filled_message(sm.message@, inputs) is Some,
        _ => true,
    }
}

/// Whether every input of `node` has a value among `inputs`.
pub fn has_all_inputs(node: &WorkflowNode, inputs: &Vec<(String, Value)>) -> (r: bool)
    ensures
        r == inputs_given(*node, entries(inputs@)),
{
    let mut i: usize = 0;
    while i < node.inputs.len()
        invariant
            i <= node.inputs@.len(),
            forall|k: int| 0 <= k < i ==> lookup(entries(inputs@), #[trigger] node.inputs@[k].name@) is Some,
        decreases node.inputs@.len() - i,
    {
        match find_entry(inputs, node.inputs[i].name.as_str()) {
            Some(_) => {},
            None => {
                assert(lookup(entries(inputs@), node.inputs@[i as int].name@) is None);
                return false;
            },
        }
        i += 1;
    }
    true
}

/// Tests `node_runnable`, so that callers can tell whether running the node would panic.
pub fn can_run_node(node: &WorkflowNode, execution_node: &WorkflowNodeExecution) -> (r: bool)
    ensures
        r == node_runnable(*node, entries(execution_node.inputs@)),
{
    match &node.metadata {
        ActionMetadata::JoinString | ActionMetadata::Add => has_all_inputs(node, &execution_node.inputs),
        ActionMetadata::SendMessage(sm) => fill_message(sm.message.as_str(), &execution_node.inputs).is_some(),
        _ => true,
    }
}

fn get_value<'a>(values: &'a Vec<(String, Value)>, name: &str) -> (r: Option<&'a Value>)
    ensures
        match lookup(entries(values@), name@) {
            Some(v) => r matches Some(x) && x.model() == v,
            None => r is None,
        },
{
    match find_entry(values, name) {
        Some(i) => Some(&values[i].1),
        None => None,
    }
}

fn copy_values(outputs: &mut Vec<(String, Value)>, inputs: &Vec<(String, Value)>)
    ensures
        entries(final(outputs)@) == set_all(entries(old(outputs)@), entries(inputs@)),
{
    let mut i: usize = 0;
    while i < inputs.len()
        invariant
            i <= inputs@.len(),
            entries(outputs@) == set_all(entries(old(outputs)@), entries(inputs@).take(i as int)),
        decreases inputs@.len() - i,
    {
        assert(entries(inputs@).take(i + 1).drop_last() =~= entries(inputs@).take(i as int));
        set_value(outputs, inputs[i].0.as_str(), inputs[i].1.clone());
        i = i + 1;
    }
    assert(entries(inputs@).take(i as int) =~= entries(inputs@));
}

fn join_inputs(node: &WorkflowNode, inputs: &Vec<(String, Value)>) -> (r: String)
    requires
        inputs_given(*node, entries(inputs@)),
    ensures
        r@ == joined(entries(inputs@), node.inputs@, node.inputs@.len() as int),
{
    let mut out = String::new();
    let mut i: usize = 0;
    while i < node.inputs.len()
        invariant
            i <= node.inputs@.len(),
            inputs_given(*node, entries(inputs@)),
            out@ == joined(entries(inputs@), node.inputs@, i as int),
        decreases node.inputs@.len() - i,
    {
        assert(lookup(entries(inputs@), node.inputs@[i as int].name@) is Some);
        match get_value(inputs, node.inputs[i].name.as_str()) {
            Some(v) => {
                let t = v.to_text();
                push_str(&mut out, t.as_str());
            },
            None => {},
        }
        i = i + 1;
    }
    out
}

fn sum_inputs(node: &WorkflowNode, inputs: &Vec<(String, Value)>) -> (r: Option<i64>)
    requires
        inputs_given(*node, entries(inputs@)),
    ensures
        r == summed(entries(inputs@), node.inputs@, node.inputs@.len() as int),
{
    let mut sum: i64 = 0;
    let mut i: usize = 0;
    while i < node.inputs.len()
        invariant
            i <= node.inputs@.len(),
            inputs_given(*node, entries(inputs@)),
            summed(entries(inputs@), node.inputs@, i as int) == Some(sum),
        decreases node.inputs@.len() - i,
    {
        assert(lookup(entries(inputs@), node.inputs@[i as int].name@) is Some);
        match get_value(inputs, node.inputs[i].name.as_str()) {
            Some(Value::Number(n)) => {
                sum = sum.wrapping_add(*n);
            },
            Some(Value::String(_)) => {
                proof {
                    lemma_summed_settled(entries(inputs@), node.inputs@, i + 1, node.inputs@.len() as int);
                }
                return None;
            },
            None => {},
        }
        i = i + 1;
    }
    Some(sum)
}

proof fn lemma_summed_settled(m: Seq<(Seq<char>, ValueModel)>, inputs: Seq<ActionInput>, j: int, k: int)
    requires
        0 <= j <= k,
        summed(m, inputs, j) is None,
    ensures
        summed(m, inputs, k) is None,
    decreases k - j,
{
    if k > j {
        lemma_summed_settled(m, inputs, j, k - 1);
    }
}

fn universe_input(inputs: &Vec<(String, Value)>) -> (r: Result<UniverseId, WorkflowNodeExecutionError>)
    ensures
        match universe_of(entries(inputs@)) {
            Ok(u) => r == Ok::<UniverseId, WorkflowNodeExecutionError>(u),
            Err(e) => r matches Err(err) && err.model() == e,
        },
{
    match get_value(inputs, "universe_id") {
        None => Err(WorkflowNodeExecutionError::InputNotFound),
        Some(Value::Number(n)) => Ok(UniverseId(*n as u64)),
        Some(Value::String(_)) => Err(WorkflowNodeExecutionError::InputTypeMismatch),
    }
}

fn text_value(inputs: &Vec<(String, Value)>, name: &str) -> (r: Result<String, WorkflowNodeExecutionError>)
    ensures
        match text_input(entries(inputs@), name@) {
            Ok(t) => r matches Ok(s) && s@ == t,
            Err(e) => r matches Err(err) && err.model() == e,
        },
{
    match get_value(inputs, name) {
        None => Err(WorkflowNodeExecutionError::InputNotFound),
        Some(v) => Ok(v.to_text()),
    }
}

fn datastore_input(inputs: &Vec<(String, Value)>) -> (r: Result<(UniverseId, String, String), WorkflowNodeExecutionError>)
    ensures
        match datastore_target(entries(inputs@)) {
            Ok(t) => r matches Ok(x) && x.0 == t.0 && x.1@ == t.1 && x.2@ == t.2,
            Err(e) => r matches Err(err) && err.model() == e,
        },
{
    let universe_id = universe_input(inputs)?;
    let datastore_id = text_value(inputs, "datastore_id")?;
    let entry_id = text_value(inputs, "entry_id")?;
    Ok((universe_id, datastore_id, entry_id))
}

fn finished(outcome: &str) -> (r: Result<NodeStep, WorkflowNodeExecutionError>)
    ensures
        step_model(r) == StepModel::Finished(outcome@),
{
    Ok(NodeStep::Finished(WorkflowExecutionNodeResult { outcome: outcome.to_owned() }))
}

/// Runs `node` with what `execution_node` records of it, up to the outside
/// work it needs: a start node passes its inputs on as outputs, a join and
/// a sum compute their single output, and the other nodes read their inputs
/// and ask for the outside work (a message with its placeholders filled in,
/// a datastore entry, a RoWifi user, a universe message, a user lookup).
pub fn execute_node(node: &WorkflowNode, execution_node: &mut WorkflowNodeExecution) -> (r: Result<
    NodeStep,
    WorkflowNodeExecutionError,
>)
    requires
        node_runnable(*node, entries(old(execution_node).inputs@)),
    ensures
        final(execution_node).id == old(execution_node).id,
        final(execution_node).inputs == old(execution_node).inputs,
        (entries(final(execution_node).outputs@), step_model(r)) == spec_execute_node(
            *node,
            entries(old(execution_node).inputs@),
            entries(old(execution_node).outputs@),
        ),
{
    match &node.metadata {
        ActionMetadata::Start => {
            copy_values(&mut execution_node.outputs, &execution_node.inputs);
            finished("next")
        },
        ActionMetadata::SendMessage(sm) => {
            match fill_message(sm.message.as_str(), &execution_node.inputs) {
                Some(content) => Ok(NodeStep::Request(NodeRequest::SendMessage { channel: sm.channel, content })),
                None => {
                    assert(false);
                    Err(WorkflowNodeExecutionError::IncorrectInputFormat)
                },
            }
        },
        ActionMetadata::JoinString => {
            let text = join_inputs(node, &execution_node.inputs);
            if node.outputs.len() == 0 {
                return Err(WorkflowNodeExecutionError::OutputNotFound);
            }
            set_value(&mut execution_node.outputs, node.outputs[0].name.as_str(), Value::String(text));
            finished("next")
        },
        ActionMetadata::Add => {
            match sum_inputs(node, &execution_node.inputs) {
                None => Err(WorkflowNodeExecutionError::InputTypeMismatch),
                Some(sum) => {
                    if node.outputs.len() == 0 {
                        return Err(WorkflowNodeExecutionError::OutputNotFound);
                    }
                    set_value(&mut execution_node.outputs, node.outputs[0].name.as_str(), Value::Number(sum));
                    finished("next")
                },
            }
        },
        ActionMetadata::GetDatastoreEntry => {
            let (universe_id, datastore_id, entry_id) = datastore_input(&execution_node.inputs)?;
            Ok(NodeStep::Request(NodeRequest::GetDatastoreEntry { universe_id, datastore_id, entry_id }))
        },
        ActionMetadata::UpdateDatastoreEntry => {
            let (universe_id, datastore_id, entry_id) = datastore_input(&execution_node.inputs)?;
            Ok(NodeStep::Request(NodeRequest::UpdateDatastoreEntry { universe_id, datastore_id, entry_id }))
        },
        ActionMetadata::GetRoWifiUser => {
            if execution_node.inputs.len() == 0 {
                return Err(WorkflowNodeExecutionError::InputNotFound);
            }
            match &execution_node.inputs[0].1 {
                Value::Number(n) => Ok(NodeStep::Request(NodeRequest::GetRoWifiUser { user_id: UserId::new(*n as u64) })),
                Value::String(_) => Err(WorkflowNodeExecutionError::IncorrectInputFormat),
            }
        },
        ActionMetadata::PublishUniverseMessage => {
            let universe_id = universe_input(&execution_node.inputs)?;
            let topic = text_value(&execution_node.inputs, "topic")?;
            let message = text_value(&execution_node.inputs, "message")?;
            Ok(NodeStep::Request(NodeRequest::PublishUniverseMessage { universe_id, topic, message }))
        },
        ActionMetadata::GetIdFromUsername => {
            if execution_node.inputs.len() == 0 {
                return Err(WorkflowNodeExecutionError::InputNotFound);
            }
            match &execution_node.inputs[0].1 {
                Value::Number(_) => Err(WorkflowNodeExecutionError::IncorrectInputFormat),
                Value::String(name) => {
                    if node.outputs.len() == 0 {
                        return Err(WorkflowNodeExecutionError::OutputNotFound);
                    }
                    Ok(NodeStep::Request(NodeRequest::GetIdFromUsername { username: name.clone() }))
                },
            }
        },
        ActionMetadata::GetUsernameFromId => {
            if execution_node.inputs.len() == 0 {
                return Err(WorkflowNodeExecutionError::InputNotFound);
            }
            match &execution_node.inputs[0].1 {
                Value::String(_) => Err(WorkflowNodeExecutionError::IncorrectInputFormat),
                Value::Number(n) => {
                    if node.outputs.len() == 0 {
                        return Err(WorkflowNodeExecutionError::OutputNotFound);
                    }
                    Ok(NodeStep::Request(NodeRequest::GetUsernameFromId { user_id: RobloxUserId(*n as u64) }))
                },
            }
        },
    }
}

/// The node finished with `outcome`.
pub open spec fn ends_with(r: Result<WorkflowExecutionNodeResult, WorkflowNodeExecutionError>, outcome: Seq<char>) -> bool {
    r matches Ok(res) && res.outcome@ == outcome
}

/// The node failed with an error of the kind `e`.
pub open spec fn fails_with(r: Result<WorkflowExecutionNodeResult, WorkflowNodeExecutionError>, e: NodeErrorModel) -> bool {
    r matches Err(err) && err.model() == e
}

/// `r` is the Roblox error `e`, handed on.
pub open spec fn fails_from_roblox(r: Result<WorkflowExecutionNodeResult, WorkflowNodeExecutionError>, e: Box<dyn ErrorSource>) -> bool {
    r matches Err(WorkflowNodeExecutionError::Roblox(x)) && x == e
}

/// `r` is the Roblox error `e`, handed on, in place of a step.
pub open spec fn step_fails_from_roblox(r: Result<NodeStep, WorkflowNodeExecutionError>, e: Box<dyn ErrorSource>) -> bool {
    r matches Err(WorkflowNodeExecutionError::Roblox(x)) && x == e
}

/// `r` is the Discord error `e`, handed on.
pub open spec fn fails_from_discord(r: Result<WorkflowExecutionNodeResult, WorkflowNodeExecutionError>, e: Box<dyn ErrorSource>) -> bool {
    r matches Err(WorkflowNodeExecutionError::Discord(x)) && x == e
}

/// `r` is the database error `e`, handed on.
pub open spec fn fails_from_database(r: Result<WorkflowExecutionNodeResult, WorkflowNodeExecutionError>, e: DatabaseError) -> bool {
    r matches Err(WorkflowNodeExecutionError::Database(x)) && x == e
}

/// Why looking a Roblox user up by id failed.
pub enum UserLookupError {
    /// Roblox answered that there is no such user.
    NotFound,
    Other(Box<dyn ErrorSource>),
}

/// The answer to a node's request.
pub enum NodeReply {
    MessageSent(Result<(), Box<dyn ErrorSource>>),
    RoWifiUser(Result<Option<RoUser>, DatabaseError>),
    Published(Result<(), Box<dyn ErrorSource>>),
    UserIds(Result<Vec<RobloxUserId>, Box<dyn ErrorSource>>),
    Username(Result<String, UserLookupError>),
}

/// Whether `reply` answers the request that `node` makes.
pub open spec fn answers(node: WorkflowNode, reply: NodeReply) -> bool {
    match node.metadata {
        ActionMetadata::SendMessage(_) => reply is MessageSent,
        ActionMetadata::GetRoWifiUser => reply is RoWifiUser,
        ActionMetadata::PublishUniverseMessage => reply is Published,
        ActionMetadata::GetIdFromUsername => reply is UserIds,
        ActionMetadata::GetUsernameFromId => reply is Username,
        _ => false,
    }
}

/// The Roblox account a RoWifi user uses in the guild: the one linked for
/// the guild, else the user's default account.
pub open spec fn account_in(user: RoUser, guild_id: GuildId) -> RobloxUserId {
    if user.linked_accounts@.contains_key(guild_id.0) {
        user.linked_accounts@[guild_id.0]
    } else {
        user.default_account_id
    }
}

/// Finishes `node` with the reply to its request, in the guild `guild_id`:
/// a sent message goes on with "next"; a found RoWifi user gives the outputs
/// `discord_id` and `roblox_id` (its account in the guild) and "success",
/// none "failure"; a published message gives "success", a failed one
/// "failure"; a username lookup gives the first id found as the node's first
/// output and "success", or "failure" when none was found; an id lookup gives
/// the username as the node's first output and "success", or "failure" when
/// Roblox has no such user. Other failures of the outside work are errors.
pub fn resume_node(
    node: &WorkflowNode,
    execution_node: &mut WorkflowNodeExecution,
    guild_id: GuildId,
    reply: NodeReply,
) -> (r: Result<WorkflowExecutionNodeResult, WorkflowNodeExecutionError>)
    requires
        answers(*node, reply),
    ensures
        final(execution_node).id == old(execution_node).id,
        final(execution_node).inputs == old(execution_node).inputs,
        ({
            let outputs = entries(old(execution_node).outputs@);
            let now = entries(final(execution_node).outputs@);
            match reply {
                NodeReply::MessageSent(Ok(())) => now == outputs && ends_with(r, "next"@),
                NodeReply::MessageSent(Err(e)) => now == outputs && fails_from_discord(r, e),
                NodeReply::RoWifiUser(Ok(Some(user))) => ends_with(r, "success"@) && now == set_entry(
                    set_entry(outputs, "discord_id"@, ValueModel::Number(user.user_id.0 as i64)),
                    "roblox_id"@,
                    ValueModel::Number(account_in(user, guild_id).0 as i64),
                ),
                NodeReply::RoWifiUser(Ok(None)) => now == outputs && ends_with(r, "failure"@),
                NodeReply::RoWifiUser(Err(e)) => now == outputs && fails_from_database(r, e),
                NodeReply::Published(Ok(())) => now == outputs && ends_with(r, "success"@),
                NodeReply::Published(Err(_)) => now == outputs && ends_with(r, "failure"@),
                NodeReply::UserIds(Ok(ids)) => if node.outputs@.len() == 0 {
                    now == outputs && fails_with(r, NodeErrorModel::OutputNotFound)
                } else if ids@.len() == 0 {
                    now == outputs && ends_with(r, "failure"@)
                } else {
                    now == set_entry(outputs, node.outputs@[0].name@, ValueModel::Number(ids@[0].0 as i64))
                        && ends_with(r, "success"@)
                },
                NodeReply::UserIds(Err(e)) => now == outputs && fails_from_roblox(r, e),
                NodeReply::Username(Ok(name)) => if node.outputs@.len() == 0 {
                    now == outputs && fails_with(r, NodeErrorModel::OutputNotFound)
                } else {
                    now == set_entry(outputs, node.outputs@[0].name@, ValueModel::String(name@)) && ends_with(r, "success"@)
                },
                NodeReply::Username(Err(UserLookupError::NotFound)) => now == outputs && ends_with(r, "failure"@),
                NodeReply::Username(Err(UserLookupError::Other(e))) => now == outputs && fails_from_roblox(r, e),
            }
        }),
{
    broadcast use vstd::std_specs::hash::group_hash_axioms;

    match reply {
        NodeReply::MessageSent(Ok(())) => Ok(WorkflowExecutionNodeResult { outcome: "next".to_owned() }),
        NodeReply::MessageSent(Err(e)) => Err(WorkflowNodeExecutionError::Discord(e)),
        NodeReply::RoWifiUser(Ok(Some(user))) => {
            set_value(&mut execution_node.outputs, "discord_id", Value::Number(user.user_id.get() as i64));
            let roblox_id = match user.linked_accounts.get(&guild_id.0) {
                Some(id) => *id,
                None => user.default_account_id,
            };
            set_value(&mut execution_node.outputs, "roblox_id", Value::Number(roblox_id.0 as i64));
            Ok(WorkflowExecutionNodeResult { outcome: "success".to_owned() })
        },
        NodeReply::RoWifiUser(Ok(None)) => Ok(WorkflowExecutionNodeResult { outcome: "failure".to_owned() }),
        NodeReply::RoWifiUser(Err(e)) => Err(WorkflowNodeExecutionError::Database(e)),
        NodeReply::Published(Ok(())) => Ok(WorkflowExecutionNodeResult { outcome: "success".to_owned() }),
        NodeReply::Published(Err(_)) => Ok(WorkflowExecutionNodeResult { outcome: "failure".to_owned() }),
        NodeReply::UserIds(Ok(ids)) => {
            if node.outputs.len() == 0 {
                return Err(WorkflowNodeExecutionError::OutputNotFound);
            }
            if ids.len() == 0 {
                return Ok(WorkflowExecutionNodeResult { outcome: "failure".to_owned() });
            }
            set_value(&mut execution_node.outputs, node.outputs[0].name.as_str(), Value::Number(ids[0].0 as i64));
            Ok(WorkflowExecutionNodeResult { outcome: "success".to_owned() })
        },
        NodeReply::UserIds(Err(e)) => Err(WorkflowNodeExecutionError::Roblox(e)),
        NodeReply::Username(Ok(name)) => {
            if node.outputs.len() == 0 {
                return Err(WorkflowNodeExecutionError::OutputNotFound);
            }
            set_value(&mut execution_node.outputs, node.outputs[0].name.as_str(), Value::String(name));
            Ok(WorkflowExecutionNodeResult { outcome: "success".to_owned() })
        },
        NodeReply::Username(Err(UserLookupError::NotFound)) => Ok(WorkflowExecutionNodeResult { outcome: "failure".to_owned() }),
        NodeReply::Username(Err(UserLookupError::Other(e))) => Err(WorkflowNodeExecutionError::Roblox(e)),
    }
}

pub enum WorkflowExecutionError {
    NodeNotFound { id: usize },
    NodeTypeNotFound { kind: ActionType },
    InputNotFound { id: usize, name: String },
    OutputNotFound { id: usize, name: String, source_id: usize, source_name: String },
    IncorrectInputType,
    Node { id: usize, err: WorkflowNodeExecutionError },
}

pub enum ExecutionErrorModel {
    NodeNotFound(usize),
    NodeTypeNotFound(ActionType),
    InputNotFound(usize, Seq<char>),
    OutputNotFound(usize, Seq<char>, usize, Seq<char>),
    IncorrectInputType,
    Node(usize, NodeErrorModel),
}

impl WorkflowExecutionError {
    pub open spec fn model(&self) -> ExecutionErrorModel {
        match self {
            WorkflowExecutionError::NodeNotFound { id } => ExecutionErrorModel::NodeNotFound(*id),
            WorkflowExecutionError::NodeTypeNotFound { kind } => ExecutionErrorModel::NodeTypeNotFound(*kind),
            WorkflowExecutionError::InputNotFound { id, name } => ExecutionErrorModel::InputNotFound(*id, name@),
            WorkflowExecutionError::OutputNotFound { id, name, source_id, source_name } => ExecutionErrorModel::OutputNotFound(
                *id,
                name@,
                *source_id,
                source_name@,
            ),
            WorkflowExecutionError::IncorrectInputType => ExecutionErrorModel::IncorrectInputType,
            WorkflowExecutionError::Node { id, err } => ExecutionErrorModel::Node(*id, err.model()),
        }
    }
}

/// A node's execution record as plain values.
pub struct ExecutionModel {
    pub id: usize,
    pub inputs: Seq<(Seq<char>, ValueModel)>,
    pub outputs: Seq<(Seq<char>, ValueModel)>,
}

impl View for WorkflowNodeExecution {
    type V = ExecutionModel;

    open spec fn view(&self) -> ExecutionModel {
        ExecutionModel { id: self.id, inputs: entries(self.inputs@), outputs: entries(self.outputs@) }
    }
}

impl ExecutionContext {
    pub open spec fn model(&self) -> Seq<ExecutionModel> {
        self.nodes@.map_values(|n: WorkflowNodeExecution| n@)
    }
}

/// The first execution record with the id `id`.
pub open spec fn first_record(ctx: Seq<ExecutionModel>, id: usize) -> Option<int>
    decreases ctx.len(),
{
    if ctx.len() == 0 {
        None
    } else {
        match first_record(ctx.drop_last(), id) {
            Some(i) => Some(i),
            None => if ctx.last().id == id {
                Some(ctx.len() - 1)
            } else {
                None
            },
        }
    }
}

proof fn lemma_first_record_extends(ctx: Seq<ExecutionModel>, id: usize, a: int, b: int)
    requires
        0 <= a <= b <= ctx.len(),
        first_record(ctx.take(a), id) is Some,
    ensures
        first_record(ctx.take(b), id) == first_record(ctx.take(a), id),
    decreases b - a,
{
    if b > a {
        lemma_first_record_extends(ctx, id, a, b - 1);
        assert(ctx.take(b).drop_last() =~= ctx.take(b - 1));
    }
}

fn find_record(nodes: &Vec<WorkflowNodeExecution>, id: usize) -> (r: Option<usize>)
    ensures
        r is None <==> first_record(nodes@.map_values(|n: WorkflowNodeExecution| n@), id) is None,
        r matches Some(i) ==> first_record(nodes@.map_values(|n: WorkflowNodeExecution| n@), id) == Some(
            i as int,
        ) && i < nodes@.len(),
{
    let ghost model = nodes@.map_values(|n: WorkflowNodeExecution| n@);
    let mut i: usize = 0;
    while i < nodes.len()
        invariant
            i <= nodes@.len(),
            model == nodes@.map_values(|n: WorkflowNodeExecution| n@),
            first_record(model.take(i as int), id) is None,
        decreases nodes@.len() - i,
    {
        assert(model.take(i + 1).drop_last() =~= model.take(i as int));
        if nodes[i].id == id {
            assert(first_record(model.take(i + 1), id) == Some(i as int));
            proof {
                lemma_first_record_extends(model, id, i + 1, model.len() as int);
            }
            assert(model.take(model.len() as int) =~= model);
            return Some(i);
        }
        i = i + 1;
    }
    assert(model.take(i as int) =~= model);
    None
}

/// The value an input of `node` gets: the value written into the workflow,
/// another node's output, or the command's argument of the input's name.
pub open spec fn resolve_input(
    ctx: Seq<ExecutionModel>,
    node: WorkflowNode,
    input: ActionInput,
    args: Seq<(Seq<char>, ValueModel)>,
) -> Result<ValueModel, ExecutionErrorModel> {
    match input.source {
        ActionInputSource::Static(v) => Ok(v.model()),
        ActionInputSource::Action { action_id, output_name } => match first_record(ctx, action_id) {
            None => Err(ExecutionErrorModel::NodeNotFound(action_id)),
            Some(p) => match lookup(ctx[p].outputs, output_name@) {
                None => Err(ExecutionErrorModel::OutputNotFound(node.id, input.name@, action_id, output_name@)),
                Some(v) => Ok(v),
            },
        },
        ActionInputSource::External(_) => match lookup(args, input.name@) {
            None => Err(ExecutionErrorModel::InputNotFound(node.id, input.name@)),
            Some(v) => Ok(v),
        },
    }
}

pub enum PrepareOutcome {
    Done(Seq<ExecutionModel>),
    Failed(Seq<ExecutionModel>, ExecutionErrorModel),
    Stuck,
}

/// Gives `node` the values of its first `k` inputs, in order, recording each
/// in the node's execution record.
pub open spec fn prepare_inputs(
    ctx: Seq<ExecutionModel>,
    node: WorkflowNode,
    args: Seq<(Seq<char>, ValueModel)>,
    k: int,
) -> PrepareOutcome
    decreases k,
{
    if k <= 0 {
        PrepareOutcome::Done(ctx)
    } else {
        match prepare_inputs(ctx, node, args, k - 1) {
            PrepareOutcome::Done(c) => {
                let input = node.inputs@[k - 1];
                match resolve_input(c, node, input, args) {
                    Err(e) => PrepareOutcome::Failed(c, e),
                    Ok(v) => match first_record(c, node.id) {
                        None => PrepareOutcome::Stuck,
                        Some(q) => PrepareOutcome::Done(
                            c.update(
                                q,
                                ExecutionModel {
                                    id: c[q].id,
                                    inputs: set_entry(c[q].inputs, input.name@, v),
                                    outputs: c[q].outputs,
                                },
                            ),
                        ),
                    },
                }
            },
            other => other,
        }
    }
}

/// Preparing `node`: its inputs, then the position of its record.
pub open spec fn prepare(ctx: Seq<ExecutionModel>, node: WorkflowNode, args: Seq<(Seq<char>, ValueModel)>) -> PrepareOutcome {
    match prepare_inputs(ctx, node, args, node.inputs@.len() as int) {
        PrepareOutcome::Done(c) => if first_record(c, node.id) is Some {
            PrepareOutcome::Done(c)
        } else {
            PrepareOutcome::Stuck
        },
        other => other,
    }
}

/// The ids of the execution records, in order.
pub open spec fn record_ids(ctx: Seq<ExecutionModel>) -> Seq<usize> {
    ctx.map_values(|m: ExecutionModel| m.id)
}

proof fn lemma_first_record_by_ids(a: Seq<ExecutionModel>, b: Seq<ExecutionModel>, id: usize)
    requires
        record_ids(a) == record_ids(b),
    ensures
        first_record(a, id) == first_record(b, id),
    decreases a.len(),
{
    assert(a.len() == record_ids(a).len());
    assert(b.len() == record_ids(b).len());
    if a.len() > 0 {
        assert(record_ids(a.drop_last()) =~= record_ids(a).drop_last());
        assert(record_ids(b.drop_last()) =~= record_ids(b).drop_last());
        assert(a.last().id == record_ids(a)[a.len() - 1]);
        assert(b.last().id == record_ids(b)[b.len() - 1]);
        lemma_first_record_by_ids(a.drop_last(), b.drop_last(), id);
    }
}

proof fn lemma_first_record_in_range(ctx: Seq<ExecutionModel>, id: usize)
    ensures
        first_record(ctx, id) matches Some(q) ==> 0 <= q < ctx.len() && ctx[q].id == id,
    decreases ctx.len(),
{
    if ctx.len() > 0 {
        lemma_first_record_in_range(ctx.drop_last(), id);
    }
}

proof fn lemma_prepare_inputs_keeps_ids(
    ctx: Seq<ExecutionModel>,
    node: WorkflowNode,
    args: Seq<(Seq<char>, ValueModel)>,
    k: int,
)
    ensures
        prepare_inputs(ctx, node, args, k) matches PrepareOutcome::Done(c) ==> record_ids(c) == record_ids(ctx),
        first_record(ctx, node.id) is Some ==> !(prepare_inputs(ctx, node, args, k) is Stuck),
    decreases k,
{
    if k > 0 {
        lemma_prepare_inputs_keeps_ids(ctx, node, args, k - 1);
        match prepare_inputs(ctx, node, args, k - 1) {
            PrepareOutcome::Done(c) => {
                lemma_first_record_by_ids(c, ctx, node.id);
                let input = node.inputs@[k - 1];
                match resolve_input(c, node, input, args) {
                    Err(e) => {},
                    Ok(v) => match first_record(c, node.id) {
                        None => {},
                        Some(q) => {
                            lemma_first_record_in_range(c, node.id);
                            let n = c.update(
                                q,
                                ExecutionModel {
                                    id: c[q].id,
                                    inputs: set_entry(c[q].inputs, input.name@, v),
                                    outputs: c[q].outputs,
                                },
                            );
                            assert(record_ids(n) =~= record_ids(c));
                        },
                    },
                }
            },
            _ => {},
        }
    }
}

/// Preparing a node never finds its execution record missing when the context held one
/// for it: the records keep their ids.
pub proof fn lemma_prepare_finds_record(
    ctx: Seq<ExecutionModel>,
    node: WorkflowNode,
    args: Seq<(Seq<char>, ValueModel)>,
)
    requires
        first_record(ctx, node.id) is Some,
    ensures
        !(prepare(ctx, node, args) is Stuck),
{
    lemma_prepare_inputs_keeps_ids(ctx, node, args, node.inputs@.len() as int);
    if let PrepareOutcome::Done(c) = prepare_inputs(ctx, node, args, node.inputs@.len() as int) {
        lemma_first_record_by_ids(c, ctx, node.id);
    }
}

/// Whether the context holds an execution record for the node `id`.
pub fn has_execution_record(execution_context: &ExecutionContext, id: usize) -> (r: bool)
    ensures
        r == first_record(execution_context.model(), id) is Some,
{
    let ghost ctx = execution_context.model();
    let mut i: usize = 0;
    while i < execution_context.nodes.len()
        invariant
            i <= execution_context.nodes@.len(),
            ctx == execution_context.model(),
            first_record(ctx.take(i as int), id) is None,
        decreases execution_context.nodes.len() - i,
    {
        assert(ctx.take(i as int + 1).drop_last() =~= ctx.take(i as int));
        if execution_context.nodes[i].id == id {
            proof {
                lemma_first_record_prefix(ctx, id, i as int + 1);
            }
            return true;
        }
        i += 1;
    }
    assert(ctx.take(i as int) =~= ctx);
    false
}

proof fn lemma_first_record_prefix(ctx: Seq<ExecutionModel>, id: usize, k: int)
    requires
        0 <= k <= ctx.len(),
        first_record(ctx.take(k), id) is Some,
    ensures
        first_record(ctx, id) == first_record(ctx.take(k), id),
    decreases ctx.len() - k,
{
    if k < ctx.len() {
        assert(ctx.take(k + 1).drop_last() =~= ctx.take(k));
        lemma_first_record_prefix(ctx, id, k + 1);
    } else {
        assert(ctx.take(k) =~= ctx);
    }
}

proof fn lemma_prepare_settled(
    ctx: Seq<ExecutionModel>,
    node: WorkflowNode,
    args: Seq<(Seq<char>, ValueModel)>,
    j: int,
    k: int,
)
    requires
        0 <= j <= k,
        !(prepare_inputs(ctx, node, args, j) is Done),
    ensures
        prepare_inputs(ctx, node, args, k) == prepare_inputs(ctx, node, args, j),
    decreases k - j,
{
    if k > j {
        lemma_prepare_settled(ctx, node, args, j, k - 1);
    }
}

/// Sets the input `name` of the record at position `q` to `value`.
fn set_record_input(nodes: &mut Vec<WorkflowNodeExecution>, q: usize, name: &str, value: Value)
    requires
        q < old(nodes)@.len(),
    ensures
        final(nodes)@.map_values(|n: WorkflowNodeExecution| n@) == old(nodes)@.map_values(
            |n: WorkflowNodeExecution| n@,
        ).update(
            q as int,
            ExecutionModel {
                id: old(nodes)@[q as int].id,
                inputs: set_entry(old(nodes)@[q as int]@.inputs, name@, value.model()),
                outputs: old(nodes)@[q as int]@.outputs,
            },
        ),
{
    let entry = &mut nodes[q];
    set_value(&mut entry.inputs, name, value);
    proof {
        assert(final(nodes)@.map_values(|n: WorkflowNodeExecution| n@) =~= old(nodes)@.map_values(
            |n: WorkflowNodeExecution| n@,
        ).update(
            q as int,
            ExecutionModel {
                id: old(nodes)@[q as int].id,
                inputs: set_entry(old(nodes)@[q as int]@.inputs, name@, value.model()),
                outputs: old(nodes)@[q as int]@.outputs,
            },
        ));
    }
}

fn resolve(
    nodes: &Vec<WorkflowNodeExecution>,
    node: &WorkflowNode,
    input: &ActionInput,
    args: &Vec<(String, Value)>,
) -> (r: Result<Value, WorkflowExecutionError>)
    ensures
        match resolve_input(nodes@.map_values(|n: WorkflowNodeExecution| n@), *node, *input, entries(args@)) {
            Ok(v) => r matches Ok(x) && x.model() == v,
            Err(e) => r matches Err(err) && err.model() == e,
        },
{
    match &input.source {
        ActionInputSource::Static(v) => Ok(v.clone()),
        ActionInputSource::Action { action_id, output_name } => {
            match find_record(nodes, *action_id) {
                None => Err(WorkflowExecutionError::NodeNotFound { id: *action_id }),
                Some(p) => match get_value(&nodes[p].outputs, output_name.as_str()) {
                    None => Err(
                        WorkflowExecutionError::OutputNotFound {
                            id: node.id,
                            name: input.name.clone(),
                            source_id: *action_id,
                            source_name: output_name.clone(),
                        },
                    ),
                    Some(v) => Ok(v.clone()),
                },
            }
        },
        ActionInputSource::External(_) => {
            match get_value(args, input.name.as_str()) {
                None => Err(WorkflowExecutionError::InputNotFound { id: node.id, name: input.name.clone() }),
                Some(v) => Ok(v.clone()),
            }
        },
    }
}

/// Gives `node` the values of its inputs (see `prepare`) and returns the
/// position of its execution record.
pub fn prepare_node(node: &WorkflowNode, execution_context: &mut ExecutionContext, args: &Vec<(String, Value)>) -> (r:
    Result<usize, WorkflowExecutionError>)
    requires
        !(prepare(old(execution_context).model(), *node, entries(args@)) is Stuck),
    ensures
        match prepare(old(execution_context).model(), *node, entries(args@)) {
            PrepareOutcome::Done(c) => r matches Ok(q) && final(execution_context).model() == c && first_record(
                c,
                node.id,
            ) == Some(q as int) && q < final(execution_context).nodes@.len(),
            PrepareOutcome::Failed(c, e) => r matches Err(err) && err.model() == e && final(execution_context).model()
                == c,
            PrepareOutcome::Stuck => false,
        },
{
    let ghost ctx0 = execution_context.model();
    let ghost total = node.inputs@.len() as int;
    let mut j: usize = 0;
    while j < node.inputs.len()
        invariant
            j <= node.inputs@.len(),
            total == node.inputs@.len(),
            ctx0 == old(execution_context).model(),
            prepare_inputs(ctx0, *node, entries(args@), j as int) == PrepareOutcome::Done(execution_context.model()),
            !(prepare(ctx0, *node, entries(args@)) is Stuck),
        decreases node.inputs@.len() - j,
    {
        let input = &node.inputs[j];
        let ghost before = execution_context.model();
        let value = match resolve(&execution_context.nodes, node, input, args) {
            Ok(v) => v,
            Err(e) => {
                proof {
                    lemma_prepare_settled(ctx0, *node, entries(args@), j + 1, total);
                }
                return Err(e);
            },
        };
        match find_record(&execution_context.nodes, node.id) {
            None => {
                proof {
                    lemma_prepare_settled(ctx0, *node, entries(args@), j + 1, total);
                }
                assert(false);
                return Err(WorkflowExecutionError::IncorrectInputType);
            },
            Some(q) => {
                set_record_input(&mut execution_context.nodes, q, input.name.as_str(), value);
            },
        }
        j = j + 1;
    }
    match find_record(&execution_context.nodes, node.id) {
        Some(q) => Ok(q),
        None => {
            assert(false);
            Err(WorkflowExecutionError::IncorrectInputType)
        },
    }
}

/// The position of the workflow's first start node.
pub fn workflow_start(workflow: &Workflow) -> (r: Result<usize, WorkflowExecutionError>)
    ensures
        match crate::custom::first_start(workflow.nodes@) {
            Some(i) => r == Ok::<usize, WorkflowExecutionError>(i as usize) && i < workflow.nodes@.len(),
            None => r matches Err(e) && e.model() == ExecutionErrorModel::NodeTypeNotFound(ActionType::Start),
        },
{
    match crate::custom::find_start(&workflow.nodes) {
        Some(i) => Ok(i),
        None => Err(WorkflowExecutionError::NodeTypeNotFound { kind: ActionType::Start }),
    }
}

/// The node that `next` names for `outcome`, the first entry of that outcome.
pub open spec fn next_for(next: Seq<(String, usize)>, outcome: Seq<char>) -> Option<usize>
    decreases next.len(),
{
    if next.len() == 0 {
        None
    } else {
        match next_for(next.drop_last(), outcome) {
            Some(id) => Some(id),
            None => if next.last().0@ == outcome {
                Some(next.last().1)
            } else {
                None
            },
        }
    }
}

proof fn lemma_next_for_extends(next: Seq<(String, usize)>, outcome: Seq<char>, a: int, b: int)
    requires
        0 <= a <= b <= next.len(),
        next_for(next.take(a), outcome) is Some,
    ensures
        next_for(next.take(b), outcome) == next_for(next.take(a), outcome),
    decreases b - a,
{
    if b > a {
        lemma_next_for_extends(next, outcome, a, b - 1);
        assert(next.take(b).drop_last() =~= next.take(b - 1));
    }
}

fn next_id(node: &WorkflowNode, outcome: &str) -> (r: Option<usize>)
    ensures
        r == next_for(node.next@, outcome@),
{
    let mut i: usize = 0;
    while i < node.next.len()
        invariant
            i <= node.next@.len(),
            next_for(node.next@.take(i as int), outcome@) is None,
        decreases node.next@.len() - i,
    {
        assert(node.next@.take(i + 1).drop_last() =~= node.next@.take(i as int));
        if crate::text::str_eq(node.next[i].0.as_str(), outcome) {
            assert(next_for(node.next@.take(i + 1), outcome@) == Some(node.next@[i as int].1));
            proof {
                lemma_next_for_extends(node.next@, outcome@, i + 1, node.next@.len() as int);
            }
            assert(node.next@.take(node.next@.len() as int) =~= node.next@);
            return Some(node.next[i].1);
        }
        i = i + 1;
    }
    assert(node.next@.take(i as int) =~= node.next@);
    None
}

/// The position of the node that runs after `node` ended with `result`:
/// `None` when `node` names no node for that outcome (the workflow ends), an
/// error when it names a node that the workflow lacks.
pub fn follow_outcome(workflow: &Workflow, node: &WorkflowNode, result: &WorkflowExecutionNodeResult) -> (r: Result<
    Option<usize>,
    WorkflowExecutionError,
>)
    ensures
        match next_for(node.next@, result.outcome@) {
            None => r matches Ok(None),
            Some(id) => match crate::custom::first_node(workflow.nodes@, id) {
                Some(i) => r == Ok::<Option<usize>, WorkflowExecutionError>(Some(i as usize)) && i
                    < workflow.nodes@.len(),
                None => r matches Err(e) && e.model() == ExecutionErrorModel::NodeNotFound(id),
            },
        },
{
    let found = next_id(node, result.outcome.as_str());
    match found {
        None => Ok(None),
        Some(id) => match crate::custom::find_node(&workflow.nodes, id) {
            Some(k) => Ok(Some(k)),
            None => Err(WorkflowExecutionError::NodeNotFound { id }),
        },
    }
}

/// A datastore entry as Roblox returns it: its value, the ids of the users it
/// concerns (in decimal), and its attributes.
pub struct DatastoreEntry {
    pub value: JsonValue,
    pub users: Vec<String>,
    pub attributes: JsonValue,
}

pub enum ReadOutcome {
    Read(Seq<(Seq<char>, ValueModel)>),
    Failed(Seq<(Seq<char>, ValueModel)>),
}

/// Reads the node's first `k` outputs out of `json`, each at the path its
/// name spells (keys separated by dots) and of its declared type, setting
/// them in `m` in turn; the first that is missing or of another type stops
/// the reading.
pub open spec fn read_outputs(json: JsonValue, outputs: Seq<ActionOutput>, m: Seq<(Seq<char>, ValueModel)>, k: int) -> ReadOutcome
    decreases k,
{
    if k <= 0 {
        ReadOutcome::Read(m)
    } else {
        match read_outputs(json, outputs, m, k - 1) {
            ReadOutcome::Failed(f) => ReadOutcome::Failed(f),
            ReadOutcome::Read(cur) => {
                let out = outputs[k - 1];
                match json_at(json, split_dots(out.name@)) {
                    None => ReadOutcome::Failed(cur),
                    Some(x) => match out.value {
                        ValueType::Number => match x.spec_as_i64() {
                            None => ReadOutcome::Failed(cur),
                            Some(n) => ReadOutcome::Read(set_entry(cur, out.name@, ValueModel::Number(n))),
                        },
                        ValueType::String => match x.spec_as_str() {
                            None => ReadOutcome::Failed(cur),
                            Some(t) => ReadOutcome::Read(set_entry(cur, out.name@, ValueModel::String(t))),
                        },
                    },
                }
            },
        }
    }
}

proof fn lemma_read_outputs_settled(json: JsonValue, outputs: Seq<ActionOutput>, m: Seq<(Seq<char>, ValueModel)>, j: int, k: int)
    requires
        0 <= j <= k,
        read_outputs(json, outputs, m, j) is Failed,
    ensures
        read_outputs(json, outputs, m, k) == read_outputs(json, outputs, m, j),
    decreases k - j,
{
    if k > j {
        lemma_read_outputs_settled(json, outputs, m, j, k - 1);
    }
}

/// Reads the node's outputs out of `json` into `outputs`; false when one is
/// missing or of another type.
fn read_node_outputs(json: &JsonValue, node: &WorkflowNode, outputs: &mut Vec<(String, Value)>) -> (ok: bool)
    ensures
        match read_outputs(*json, node.outputs@, entries(old(outputs)@), node.outputs@.len() as int) {
            ReadOutcome::Read(m) => ok && entries(final(outputs)@) == m,
            ReadOutcome::Failed(m) => !ok && entries(final(outputs)@) == m,
        },
{
    let ghost m0 = entries(outputs@);
    let mut k: usize = 0;
    while k < node.outputs.len()
        invariant
            k <= node.outputs@.len(),
            m0 == entries(old(outputs)@),
            read_outputs(*json, node.outputs@, m0, k as int) == ReadOutcome::Read(entries(outputs@)),
        decreases node.outputs@.len() - k,
    {
        let out = &node.outputs[k];
        let path = split_path(out.name.as_str());
        let found = get_path(json, &path, 0);
        assert(texts(path@).skip(0) =~= texts(path@));
        let value = match found {
            None => None,
            Some(x) => match out.value {
                ValueType::Number => match x.as_i64() {
                    None => None,
                    Some(n) => Some(Value::Number(n)),
                },
                ValueType::String => match x.as_str() {
                    None => None,
                    Some(t) => Some(Value::String(t.to_owned())),
                },
            },
        };
        match value {
            None => {
                proof {
                    lemma_read_outputs_settled(*json, node.outputs@, m0, k + 1, node.outputs@.len() as int);
                }
                return false;
            },
            Some(v) => {
                set_value(outputs, out.name.as_str(), v);
            },
        }
        k = k + 1;
    }
    true
}

/// The JSON form of a workflow value.
pub open spec fn json_of(v: Value) -> JsonValue {
    match v {
        Value::Number(n) => JsonValue::spec_from_i64(n),
        Value::String(s) => JsonValue::String(s),
    }
}

/// Whether an input name is one of the three that name the entry.
pub open spec fn names_entry(name: Seq<char>) -> bool {
    name == "universe_id"@ || name == "datastore_id"@ || name == "entry_id"@
}

/// One input's edit: an input other than the three that name the entry
/// replaces the value at the path its name spells (keys separated by dots)
/// with its own value; the path must be there.
pub open spec fn edit_step(before: JsonValue, after: JsonValue, input: ActionInput, inputs: Seq<(String, Value)>) -> bool {
    if names_entry(input.name@) {
        after == before
    } else {
        json_at(before, split_dots(input.name@)) is Some && replaced_at(
            before,
            after,
            split_dots(input.name@),
            json_of(inputs[entry_index(entries(inputs), input.name@)->0].1),
        )
    }
}

pub open spec fn chain_step(states: Seq<JsonValue>, node: WorkflowNode, inputs: Seq<(String, Value)>, i: int) -> bool {
    edit_step(states[i], states[i + 1], node.inputs@[i], inputs)
}

/// `states` are the value before and after each of the node's first `k`
/// edits.
pub open spec fn edit_chain(states: Seq<JsonValue>, node: WorkflowNode, inputs: Seq<(String, Value)>, k: int) -> bool {
    &&& states.len() == k + 1
    &&& forall|i: int| 0 <= i < k ==> #[trigger] chain_step(states, node, inputs, i)
}

/// Applies the edits of the node's inputs to `value`; false when one's path
/// is not there.
fn apply_edits(node: &WorkflowNode, inputs: &Vec<(String, Value)>, value: &mut JsonValue) -> (ok: bool)
    requires
        inputs_given(*node, entries(inputs@)),
    ensures
        ok ==> exists|states: Seq<JsonValue>|
            edit_chain(states, *node, inputs@, node.inputs@.len() as int) && states[0] == *old(value)
                && states.last() == *final(value),
        !ok ==> exists|states: Seq<JsonValue>, k: int|
            0 <= k < node.inputs@.len() && edit_chain(states, *node, inputs@, k) && states[0] == *old(value)
                && !names_entry(node.inputs@[k].name@) && json_at(states[k], split_dots(node.inputs@[k].name@))
                is None,
{
    let ghost mut states: Seq<JsonValue> = seq![*value];
    let mut j: usize = 0;
    while j < node.inputs.len()
        invariant
            j <= node.inputs@.len(),
            inputs_given(*node, entries(inputs@)),
            edit_chain(states, *node, inputs@, j as int),
            states[0] == *old(value),
            states.last() == *value,
        decreases node.inputs@.len() - j,
    {
        let name = node.inputs[j].name.as_str();
        let reserved = str_eq_any(name);
        let ghost before = *value;
        if !reserved {
            let path = split_path(name);
            assert(texts(path@).skip(0) =~= texts(path@));
            if get_path(value, &path, 0).is_none() {
                assert(states[j as int] == before);
                return false;
            }
            assert(lookup(entries(inputs@), node.inputs@[j as int].name@) is Some);
            let idx = match find_entry(inputs, name) {
                Some(i) => i,
                None => {
                    assert(false);
                    return false;
                },
            };
            let leaf = match &inputs[idx].1 {
                Value::Number(n) => JsonValue::from_i64(*n),
                Value::String(s) => JsonValue::String(s.clone()),
            };
            assert(leaf == json_of(inputs@[entry_index(entries(inputs@), name@)->0].1));
            set_path(value, &path, 0, leaf);
        }
        proof {
            let next = states.push(*value);
            assert(edit_step(before, *value, node.inputs@[j as int], inputs@));
            assert forall|i: int| 0 <= i < j + 1 implies #[trigger] chain_step(next, *node, inputs@, i) by {
                if i < j {
                    assert(chain_step(states, *node, inputs@, i));
                    assert(next[i] == states[i] && next[i + 1] == states[i + 1]);
                }
            }
            states = next;
        }
        j = j + 1;
    }
    true
}

fn str_eq_any(name: &str) -> (r: bool)
    ensures
        r == names_entry(name@),
{
    crate::text::str_eq(name, "universe_id") || crate::text::str_eq(name, "datastore_id") || crate::text::str_eq(
        name,
        "entry_id",
    )
}

/// The answer to a datastore node's request.
pub enum DatastoreReply {
    /// The entry as read.
    Fetched(Result<DatastoreEntry, Box<dyn ErrorSource>>),
    /// The entry as written back.
    Written(Result<DatastoreEntry, Box<dyn ErrorSource>>),
}

/// Whether `reply` answers a request of the datastore node `node`.
pub open spec fn answers_datastore(node: WorkflowNode, reply: DatastoreReply) -> bool {
    match node.metadata {
        ActionMetadata::GetDatastoreEntry => reply is Fetched,
        ActionMetadata::UpdateDatastoreEntry => true,
        _ => false,
    }
}

/// What a datastore node's outputs become once its entry's value `json` is
/// read, and how the node ends.
pub open spec fn read_step(json: JsonValue, node: WorkflowNode, outputs: Seq<(Seq<char>, ValueModel)>) -> (Seq<(Seq<char>, ValueModel)>, StepModel) {
    match read_outputs(json, node.outputs@, outputs, node.outputs@.len() as int) {
        ReadOutcome::Read(m) => (m, StepModel::Finished("next"@)),
        ReadOutcome::Failed(m) => (m, StepModel::Failed(NodeErrorModel::IncorrectOutputFormat)),
    }
}

/// Goes on with a datastore node once its request is answered: a read entry
/// gives a get node its outputs (read from the entry's value at the paths
/// their names spell) and "next"; an update node edits the read entry's value
/// with its inputs and asks for the entry to be written back, then reads its
/// outputs from the written entry and goes on with "next". A path that is not
/// there, or an output of another type, is an error, as is a failed request.
pub fn resume_datastore_node(node: &WorkflowNode, execution_node: &mut WorkflowNodeExecution, reply: DatastoreReply) -> (r:
    Result<NodeStep, WorkflowNodeExecutionError>)
    requires
        answers_datastore(*node, reply),
        inputs_given(*node, entries(old(execution_node).inputs@)),
    ensures
        final(execution_node).id == old(execution_node).id,
        final(execution_node).inputs == old(execution_node).inputs,
        ({
            let outputs = entries(old(execution_node).outputs@);
            let now = entries(final(execution_node).outputs@);
            let inputs = old(execution_node).inputs@;
            match reply {
                DatastoreReply::Fetched(Err(e)) => now == outputs && step_fails_from_roblox(r, e),
                DatastoreReply::Written(Err(e)) => now == outputs && step_fails_from_roblox(r, e),
                DatastoreReply::Written(Ok(entry)) => (now, step_model(r)) == read_step(entry.value, *node, outputs),
                DatastoreReply::Fetched(Ok(entry)) => match node.metadata {
                    ActionMetadata::GetDatastoreEntry => (now, step_model(r)) == read_step(entry.value, *node, outputs),
                    _ => now == outputs && ({
                        ||| (exists|states: Seq<JsonValue>, k: int|
                            0 <= k < node.inputs@.len() && edit_chain(states, *node, inputs, k) && states[0] == entry.value
                                && !names_entry(node.inputs@[k].name@) && json_at(
                                states[k],
                                split_dots(node.inputs@[k].name@),
                            ) is None) && step_model(r) == StepModel::Failed(NodeErrorModel::IncorrectInputFormat)
                        ||| (match datastore_target(entries(inputs)) {
                            Err(e) => step_model(r) == StepModel::Failed(e),
                            Ok((u, d, en)) => r matches Ok(NodeStep::Request(NodeRequest::WriteDatastoreEntry { universe_id, datastore_id, entry_id, value, users, attributes }))
                                && universe_id == u && datastore_id@ == d && entry_id@ == en && users == entry.users
                                && attributes == entry.attributes && exists|states: Seq<JsonValue>|
                                edit_chain(states, *node, inputs, node.inputs@.len() as int) && states[0] == entry.value
                                    && states.last() == value,
                        })
                    }),
                },
            }
        }),
{
    match reply {
        DatastoreReply::Fetched(Err(e)) => Err(WorkflowNodeExecutionError::Roblox(e)),
        DatastoreReply::Written(Err(e)) => Err(WorkflowNodeExecutionError::Roblox(e)),
        DatastoreReply::Written(Ok(entry)) => {
            if read_node_outputs(&entry.value, node, &mut execution_node.outputs) {
                Ok(NodeStep::Finished(WorkflowExecutionNodeResult { outcome: "next".to_owned() }))
            } else {
                Err(WorkflowNodeExecutionError::IncorrectOutputFormat)
            }
        },
        DatastoreReply::Fetched(Ok(entry)) => {
            match &node.metadata {
                ActionMetadata::GetDatastoreEntry => {
                    if read_node_outputs(&entry.value, node, &mut execution_node.outputs) {
                        Ok(NodeStep::Finished(WorkflowExecutionNodeResult { outcome: "next".to_owned() }))
                    } else {
                        Err(WorkflowNodeExecutionError::IncorrectOutputFormat)
                    }
                },
                _ => {
                    let DatastoreEntry { value, users, attributes } = entry;
                    let mut value = value;
                    if !apply_edits(node, &execution_node.inputs, &mut value) {
                        return Err(WorkflowNodeExecutionError::IncorrectInputFormat);
                    }
                    let (universe_id, datastore_id, entry_id) = datastore_input(&execution_node.inputs)?;
                    Ok(
                        NodeStep::Request(
                            NodeRequest::WriteDatastoreEntry {
                                universe_id,
                                datastore_id,
                                entry_id,
                                value,
                                users,
                                attributes,
                            },
                        ),
                    )
                },
            }
        },
    }
}

proof fn lemma_entry_index_first(m: Seq<(Seq<char>, ValueModel)>, name: Seq<char>)
    ensures
        entry_index(m, name) matches Some(i) ==> 0 <= i < m.len() && m[i].0 == name && forall|j: int|
            0 <= j < i ==> m[j].0 != name,
        entry_index(m, name) is None ==> forall|j: int| 0 <= j < m.len() ==> m[j].0 != name,
    decreases m.len(),
{
    if m.len() > 0 {
        lemma_entry_index_first(m.drop_last(), name);
        assert forall|j: int| 0 <= j < m.len() - 1 implies m.drop_last()[j] == m[j] by {}
    }
}

proof fn lemma_entry_index_is(m: Seq<(Seq<char>, ValueModel)>, name: Seq<char>, i: int)
    requires
        0 <= i < m.len(),
        m[i].0 == name,
        forall|j: int| 0 <= j < i ==> m[j].0 != name,
    ensures
        entry_index(m, name) == Some(i),
{
    lemma_entry_index_first(m, name);
    match entry_index(m, name) {
        Some(k) => {
            if k < i {
                assert(m[k].0 != name);
            } else if k > i {
                assert(m[i].0 != name);
            }
        },
        None => {
            assert(m[i].0 != name);
        },
    }
}

proof fn lemma_entry_index_none(m: Seq<(Seq<char>, ValueModel)>, name: Seq<char>)
    requires
        forall|j: int| 0 <= j < m.len() ==> m[j].0 != name,
    ensures
        entry_index(m, name) is None,
{
    lemma_entry_index_first(m, name);
    if entry_index(m, name) is Some {
        let k = entry_index(m, name)->0;
        assert(m[k].0 != name);
    }
}

/// Reading a value just set gives it back, and setting a value leaves the
/// values of the other names as they were.
pub proof fn lemma_set_then_lookup(m: Seq<(Seq<char>, ValueModel)>, name: Seq<char>, v: ValueModel, other: Seq<char>)
    ensures
        lookup(set_entry(m, name, v), name) == Some(v),
        other != name ==> lookup(set_entry(m, name, v), other) == lookup(m, other),
{
    lemma_entry_index_first(m, name);
    lemma_entry_index_first(m, other);
    let n = set_entry(m, name, v);
    match entry_index(m, name) {
        Some(i) => {
            lemma_entry_index_is(n, name, i);
            if other != name {
                match entry_index(m, other) {
                    Some(k) => {
                        lemma_entry_index_is(n, other, k);
                    },
                    None => {
                        lemma_entry_index_none(n, other);
                    },
                }
            }
        },
        None => {
            lemma_entry_index_is(n, name, m.len() as int);
            if other != name {
                match entry_index(m, other) {
                    Some(k) => {
                        lemma_entry_index_is(n, other, k);
                    },
                    None => {
                        lemma_entry_index_none(n, other);
                    },
                }
            }
        },
    }
}

} // verus!
