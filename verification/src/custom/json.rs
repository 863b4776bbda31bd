//! JSON values as the workflow's datastore nodes read and change them.
use vstd::prelude::*;

use crate::text::{push_char, str_eq};

verus! {

/// A JSON number as it was written: a non-negative integer, a negative
/// integer, or a float (kept as its bits).
#[derive(Clone, Copy, Debug, PartialEq, Eq, Structural)]
pub enum JsonNumber {
    PosInt(u64),
    NegInt(i64),
    Float(u64),
}

/// A JSON value. An object's members hold no key twice.
#[derive(Debug)]
pub enum JsonValue {
    Null,
    Bool(bool),
    Number(JsonNumber),
    String(String),
    Array(Vec<JsonValue>),
    Object(Vec<(String, JsonValue)>),
}

/// The position of the member named `key`.
pub open spec fn member_index(members: Seq<(String, JsonValue)>, key: Seq<char>) -> Option<int>
    decreases members.len(),
{
    if members.len() == 0 {
        None
    } else {
        match member_index(members.drop_last(), key) {
            Some(i) => Some(i),
            None => if members.last().0@ == key {
                Some(members.len() - 1)
            } else {
                None
            },
        }
    }
}

proof fn lemma_member_index_extends(members: Seq<(String, JsonValue)>, key: Seq<char>, a: int, b: int)
    requires
        0 <= a <= b <= members.len(),
        member_index(members.take(a), key) is Some,
    ensures
        member_index(members.take(b), key) == member_index(members.take(a), key),
    decreases b - a,
{
    if b > a {
        lemma_member_index_extends(members, key, a, b - 1);
        assert(members.take(b).drop_last() =~= members.take(b - 1));
    }
}

/// The value found by following the keys `path` from `v`: each step reads a
/// member of an object.
pub open spec fn json_at(v: JsonValue, path: Seq<Seq<char>>) -> Option<JsonValue>
    decreases path.len(),
{
    if path.len() == 0 {
        Some(v)
    } else {
        match v {
            JsonValue::Object(members) => match member_index(members@, path[0]) {
                Some(i) => json_at(members@[i].1, path.drop_first()),
                None => None,
            },
            _ => None,
        }
    }
}

/// `new` is `old` with the value at `path` replaced by `leaf`.
pub open spec fn replaced_at(old: JsonValue, new: JsonValue, path: Seq<Seq<char>>, leaf: JsonValue) -> bool
    decreases path.len(),
{
    if path.len() == 0 {
        new == leaf
    } else {
        match (old, new) {
            (JsonValue::Object(m1), JsonValue::Object(m2)) => match member_index(m1@, path[0]) {
                Some(i) => {
                    &&& m2@.len() == m1@.len()
                    &&& forall|j: int| 0 <= j < m1@.len() && j != i ==> #[trigger] m2@[j] == m1@[j]
                    &&& m2@[i].0 == m1@[i].0
                    &&& replaced_at(m1@[i].1, m2@[i].1, path.drop_first(), leaf)
                },
                None => false,
            },
            _ => false,
        }
    }
}

impl JsonValue {
    /// The value as a 64-bit signed integer, when it is an integer in range.
    pub open spec fn spec_as_i64(self) -> Option<i64> {
        match self {
            JsonValue::Number(JsonNumber::PosInt(u)) => if u <= i64::MAX {
                Some(u as i64)
            } else {
                None
            },
            JsonValue::Number(JsonNumber::NegInt(i)) => Some(i),
            _ => None,
        }
    }

    /// The value as text, when it is a string.
    pub open spec fn spec_as_str(self) -> Option<Seq<char>> {
        match self {
            JsonValue::String(s) => Some(s@),
            _ => None,
        }
    }

    pub fn as_i64(&self) -> (r: Option<i64>)
        ensures
            r == self.spec_as_i64(),
    {
        match self {
            JsonValue::Number(JsonNumber::PosInt(u)) => if *u <= 9223372036854775807u64 {
                Some(*u as i64)
            } else {
                None
            },
            JsonValue::Number(JsonNumber::NegInt(i)) => Some(*i),
            _ => None,
        }
    }

    pub fn as_str(&self) -> (r: Option<&str>)
        ensures
            match self.spec_as_str() {
                Some(t) => r matches Some(s) && s@ == t,
                None => r is None,
            },
    {
        match self {
            JsonValue::String(s) => Some(s.as_str()),
            _ => None,
        }
    }

    /// The JSON form of an integer.
    pub open spec fn spec_from_i64(n: i64) -> JsonValue {
        if n < 0 {
            JsonValue::Number(JsonNumber::NegInt(n))
        } else {
            JsonValue::Number(JsonNumber::PosInt(n as u64))
        }
    }

    pub fn from_i64(n: i64) -> (v: JsonValue)
        ensures
            v == Self::spec_from_i64(n),
    {
        if n < 0 {
            JsonValue::Number(JsonNumber::NegInt(n))
        } else {
            JsonValue::Number(JsonNumber::PosInt(n as u64))
        }
    }
}

/// The parts of `s` between dots (`str::split('.')`): one more part than
/// there are dots, parts possibly empty.
pub open spec fn split_dots(s: Seq<char>) -> Seq<Seq<char>>
    decreases s.len(),
{
    if s.len() == 0 {
        seq![Seq::empty()]
    } else {
        let rest = split_dots(s.drop_last());
        if s.last() == '.' {
            rest.push(Seq::empty())
        } else {
            rest.update(rest.len() - 1, rest.last().push(s.last()))
        }
    }
}

pub proof fn lemma_split_dots_len(s: Seq<char>)
    ensures
        split_dots(s).len() >= 1,
    decreases s.len(),
{
    if s.len() > 0 {
        lemma_split_dots_len(s.drop_last());
    }
}

/// The parts of `s` between dots.
pub fn split_path(s: &str) -> (parts: Vec<String>)
    ensures
        crate::text::texts(parts@) == split_dots(s@),
{
    let cs = crate::text::chars_of(s);
    let mut parts: Vec<String> = Vec::new();
    let mut current = String::new();
    let mut i: usize = 0;
    while i < cs.len()
        invariant
            i <= cs@.len(),
            cs@ == s@,
            crate::text::texts(parts@).push(current@) == split_dots(s@.take(i as int)),
        decreases cs@.len() - i,
    {
        proof {
            lemma_split_dots_len(s@.take(i as int));
        }
        assert(s@.take(i + 1).drop_last() =~= s@.take(i as int));
        let ghost before = crate::text::texts(parts@);
        let ghost cur = current@;
        if cs[i] == '.' {
            let done = current;
            parts.push(done);
            current = String::new();
            assert(crate::text::texts(parts@) =~= before.push(cur));
            assert(crate::text::texts(parts@).push(current@) =~= before.push(cur).push(Seq::<char>::empty()));
        } else {
            push_char(&mut current, cs[i]);
            assert(crate::text::texts(parts@).push(current@) =~= before.push(cur).update(
                before.len() as int,
                cur.push(cs@[i as int]),
            ));
        }
        i = i + 1;
    }
    assert(s@.take(i as int) =~= s@);
    let ghost before = crate::text::texts(parts@);
    parts.push(current);
    assert(crate::text::texts(parts@) =~= before.push(current@));
    parts
}

/// The member of `members` named `key`.
fn find_member(members: &Vec<(String, JsonValue)>, key: &str) -> (r: Option<usize>)
    ensures
        r is None <==> member_index(members@, key@) is None,
        r matches Some(i) ==> member_index(members@, key@) == Some(i as int) && i < members@.len(),
{
    let mut i: usize = 0;
    while i < members.len()
        invariant
            i <= members@.len(),
            member_index(members@.take(i as int), key@) is None,
        decreases members@.len() - i,
    {
        assert(members@.take(i + 1).drop_last() =~= members@.take(i as int));
        if str_eq(members[i].0.as_str(), key) {
            assert(member_index(members@.take(i + 1), key@) == Some(i as int));
            proof {
                lemma_member_index_extends(members@, key@, i + 1, members@.len() as int);
            }
            assert(members@.take(members@.len() as int) =~= members@);
            return Some(i);
        }
        i = i + 1;
    }
    assert(members@.take(i as int) =~= members@);
    None
}

/// The value at `path[from..]` in `v`.
pub fn get_path<'a>(v: &'a JsonValue, path: &Vec<String>, from: usize) -> (r: Option<&'a JsonValue>)
    requires
        from <= path@.len(),
    ensures
        match json_at(*v, crate::text::texts(path@).skip(from as int)) {
            Some(x) => r matches Some(y) && *y == x,
            None => r is None,
        },
    decreases path@.len() - from,
{
    if from == path.len() {
        assert(crate::text::texts(path@).skip(from as int) =~= Seq::<Seq<char>>::empty());
        return Some(v);
    }
    let ghost rest = crate::text::texts(path@).skip(from as int);
    assert(rest[0] == path@[from as int]@);
    assert(rest.drop_first() =~= crate::text::texts(path@).skip(from + 1));
    match v {
        JsonValue::Object(members) => match find_member(members, path[from].as_str()) {
            Some(i) => get_path(&members[i].1, path, from + 1),
            None => None,
        },
        _ => None,
    }
}

/// Replaces the value at `path[from..]` in `v`, which must exist, with
/// `leaf`.
pub fn set_path(v: &mut JsonValue, path: &Vec<String>, from: usize, leaf: JsonValue)
    requires
        from <= path@.len(),
        json_at(*old(v), crate::text::texts(path@).skip(from as int)) is Some,
    ensures
        replaced_at(*old(v), *final(v), crate::text::texts(path@).skip(from as int), leaf),
    decreases path@.len() - from,
{
    if from == path.len() {
        assert(crate::text::texts(path@).skip(from as int) =~= Seq::<Seq<char>>::empty());
        *v = leaf;
        return;
    }
    let ghost rest = crate::text::texts(path@).skip(from as int);
    assert(rest[0] == path@[from as int]@);
    assert(rest.drop_first() =~= crate::text::texts(path@).skip(from + 1));
    match v {
        JsonValue::Object(members) => match find_member(members, path[from].as_str()) {
            Some(i) => {
                let entry = &mut members[i];
                set_path(&mut entry.1, path, from + 1, leaf);
            },
            None => {},
        },
        _ => {},
    }
}

} // verus!
