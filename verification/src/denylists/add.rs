use vstd::prelude::*;

use crate::custombinds::parser::{parser, spec_parser};
use crate::error::RoError;
use crate::models::deny_list::{DenyList, DenyListActionType, DenyListData, DenyListType};
use crate::roblox::id::{GroupId, UserId as RobloxUserId};
use crate::text::push_str;

verus! {

#[derive(Debug)]
pub struct DenylistArguments {
    pub kind: DenyListType,
    pub action: DenyListActionType,
    pub reason: String,
    pub user_id: Option<RobloxUserId>,
    pub group_id: Option<GroupId>,
    pub code: Option<String>,
}

pub enum AddDenylistError {
    MissingUser,
    MissingGroup,
    MissingCode,
    /// The code does not parse; the text says why.
    IncorrectCode(String),
    Generic(RoError),
}

/// The largest id among `lists`, or 0 when there is none.
pub open spec fn max_denylist_id(lists: Seq<DenyList>) -> u32
    decreases lists.len(),
{
    if lists.len() == 0 {
        0
    } else {
        let m = max_denylist_id(lists.drop_last());
        if lists.last().id > m {
            lists.last().id
        } else {
            m
        }
    }
}

/// No two of the deny lists share an id.
#[verifier::opaque]
pub open spec fn distinct_denylist_ids(lists: Seq<DenyList>) -> bool {
    forall|i: int, j: int| 0 <= i < j < lists.len() ==> lists[i].id != lists[j].id
}

proof fn lemma_max_denylist_id_bounds(lists: Seq<DenyList>)
    ensures
        forall|i: int| 0 <= i < lists.len() ==> lists[i].id <= max_denylist_id(lists),
    decreases lists.len(),
{
    if lists.len() > 0 {
        lemma_max_denylist_id_bounds(lists.drop_last());
        assert forall|i: int| 0 <= i < lists.len() implies lists[i].id <= max_denylist_id(lists) by {
            if i < lists.len() - 1 {
                assert(lists[i] == lists.drop_last()[i]);
            }
        }
    }
}

proof fn lemma_same_ids_distinct(before: Seq<DenyList>, after: Seq<DenyList>)
    requires
        distinct_denylist_ids(before),
        after.len() == before.len(),
        forall|k: int| 0 <= k < after.len() ==> after[k].id == before[k].id,
    ensures
        distinct_denylist_ids(after),
{
    reveal(distinct_denylist_ids);
}

proof fn lemma_push_fresh_distinct(before: Seq<DenyList>, x: DenyList)
    requires
        distinct_denylist_ids(before),
        forall|k: int| 0 <= k < before.len() ==> before[k].id < x.id,
    ensures
        distinct_denylist_ids(before.push(x)),
{
    reveal(distinct_denylist_ids);
    assert forall|i: int, j: int| 0 <= i < j < before.push(x).len() implies before.push(x)[i].id != before.push(x)[j].id by {
        if j == before.len() {
            assert(before.push(x)[i] == before[i]);
        } else {
            assert(before.push(x)[i] == before[i]);
            assert(before.push(x)[j] == before[j]);
        }
    }
}

/// Keeping some of the deny lists keeps their ids distinct.
pub(crate) proof fn lemma_filter_distinct_denylist_ids(s: Seq<DenyList>, pred: spec_fn(DenyList) -> bool)
    requires
        distinct_denylist_ids(s),
    ensures
        distinct_denylist_ids(s.filter(pred)),
    decreases s.len(),
{
    if s.len() > 0 {
        let d = s.drop_last();
        let x = s.last();
        assert(distinct_denylist_ids(d)) by {
            reveal(distinct_denylist_ids);
            assert forall|i: int, j: int| 0 <= i < j < d.len() implies d[i].id != d[j].id by {
                assert(d[i] == s[i]);
                assert(d[j] == s[j]);
            }
        }
        lemma_filter_distinct_denylist_ids(d, pred);
        reveal_with_fuel(Seq::<DenyList>::filter, 1);
        assert(s.filter(pred) == if pred(x) { d.filter(pred).push(x) } else { d.filter(pred) });
        if pred(x) {
            let f = d.filter(pred);
            reveal(distinct_denylist_ids);
            assert forall|i: int, j: int| 0 <= i < j < f.push(x).len() implies f.push(x)[i].id != f.push(x)[j].id by {
                assert(f.push(x)[i] == f[i]);
                if j < f.len() {
                    assert(f.push(x)[j] == f[j]);
                } else {
                    assert(f.contains(f[i]));
                    d.lemma_filter_contains_rev(pred, f[i]);
                    let k = choose|k: int| 0 <= k < d.len() && d[k] == f[i];
                    assert(s[k] == d[k]);
                    assert(s[s.len() - 1] == x);
                }
            }
        }
    } else {
        reveal_with_fuel(Seq::<DenyList>::filter, 1);
        reveal(distinct_denylist_ids);
    }
}

/// The first deny list of `lists` that matches the same members as `data`.
pub open spec fn same_data_position(lists: Seq<DenyList>, data: DenyListData) -> Option<int> {
    if exists|i: int| 0 <= i < lists.len() && lists[i].data.same_as(data) {
        Some(
            choose|i: int|
                0 <= i < lists.len() && lists[i].data.same_as(data) && forall|j: int|
                    0 <= j < i ==> !lists[j].data.same_as(data),
        )
    } else {
        None
    }
}

fn max_id(lists: &[DenyList]) -> (m: u32)
    ensures
        m == max_denylist_id(lists@),
{
    let mut m: u32 = 0;
    let mut i: usize = 0;
    while i < lists.len()
        invariant
            i <= lists@.len(),
            m == max_denylist_id(lists@.take(i as int)),
        decreases lists@.len() - i,
    {
        assert(lists@.take(i + 1).drop_last() =~= lists@.take(i as int));
        if lists[i].id > m {
            m = lists[i].id;
        }
        i = i + 1;
    }
    assert(lists@.take(i as int) =~= lists@);
    m
}

fn find_same_data(lists: &[DenyList], data: &DenyListData) -> (r: Option<usize>)
    ensures
        match same_data_position(lists@, *data) {
            Some(i) => r == Some(i as usize) && 0 <= i < lists.len(),
            None => r is None,
        },
{
    let mut i: usize = 0;
    while i < lists.len()
        invariant
            i <= lists@.len(),
            forall|j: int| 0 <= j < i ==> !lists@[j].data.same_as(*data),
        decreases lists@.len() - i,
    {
        if lists[i].data.equals(data) {
            let ghost k = same_data_position(lists@, *data)->0;
            assert(k == i) by {
                if k > i {
                    assert(lists@[i as int].data.same_as(*data));
                }
            }
            return Some(i);
        }
        i = i + 1;
    }
    None
}

/// What the arguments ask the new deny list to match, or why they are
/// refused: the field that the deny list's type needs is missing, or its
/// code does not parse.
pub open spec fn requested_data(args: DenylistArguments) -> Option<DenyListData> {
    match args.kind {
        DenyListType::User => match args.user_id {
            Some(u) => Some(DenyListData::User(u)),
            None => None,
        },
        DenyListType::Group => match args.group_id {
            Some(g) => Some(DenyListData::Group(g)),
            None => None,
        },
        DenyListType::Custom => match args.code {
            Some(c) => if spec_parser(c@) is Some {
                Some(DenyListData::Custom(c))
            } else {
                None
            },
            None => None,
        },
    }
}

/// Adds a deny list to the guild's lists, or updates the first one that
/// matches the same members (its reason and action become the new ones).
/// The new deny list's id is one more than the largest existing id. Returns
/// the new deny list and the lists to store.
pub fn add_denylist(existing_denylists: Vec<DenyList>, args: DenylistArguments) -> (r: Result<
    (DenyList, Vec<DenyList>),
    AddDenylistError,
>)
    requires
        max_denylist_id(existing_denylists@) < u32::MAX,
    ensures
        args.kind == DenyListType::User && args.user_id is None ==> r matches Err(
            AddDenylistError::MissingUser,
        ),
        args.kind == DenyListType::Group && args.group_id is None ==> r matches Err(
            AddDenylistError::MissingGroup,
        ),
        args.kind == DenyListType::Custom && args.code is None ==> r matches Err(
            AddDenylistError::MissingCode,
        ),
        args.kind == DenyListType::Custom && (args.code matches Some(c) && spec_parser(c@) is None)
            ==> r matches Err(AddDenylistError::IncorrectCode(_)),
        requested_data(args) matches Some(data) ==> (r matches Ok((new_list, stored)) && {
            &&& new_list == DenyList {
                id: (max_denylist_id(existing_denylists@) + 1) as u32,
                reason: args.reason,
                action_type: args.action,
                data,
            }
            &&& match same_data_position(existing_denylists@, data) {
                Some(i) => stored@ == existing_denylists@.update(
                    i,
                    DenyList {
                        id: existing_denylists@[i].id,
                        reason: args.reason,
                        action_type: args.action,
                        data: existing_denylists@[i].data,
                    },
                ),
                None => stored@ == existing_denylists@.push(new_list),
            }
        }),
        distinct_denylist_ids(existing_denylists@) ==> (r matches Ok((_, stored))
            ==> distinct_denylist_ids(stored@)),
{
    let data = match args.kind {
        DenyListType::User => {
            if let Some(user_id) = args.user_id {
                DenyListData::User(user_id)
            } else {
                return Err(AddDenylistError::MissingUser);
            }
        },
        DenyListType::Group => {
            if let Some(group_id) = args.group_id {
                DenyListData::Group(group_id)
            } else {
                return Err(AddDenylistError::MissingGroup);
            }
        },
        DenyListType::Custom => {
            if let Some(code) = args.code {
                if let Err(err) = parser(code.as_str()) {
                    let mut message = String::new();
                    push_str(&mut message, err.description());
                    return Err(AddDenylistError::IncorrectCode(message));
                }
                DenyListData::Custom(code)
            } else {
                return Err(AddDenylistError::MissingCode);
            }
        },
    };
    let denylist_id = max_id(existing_denylists.as_slice()) + 1;
    let new_denylist = DenyList {
        id: denylist_id,
        reason: args.reason,
        action_type: args.action,
        data,
    };
    let mut lists = existing_denylists;
    let ghost before = lists@;
    match find_same_data(lists.as_slice(), &new_denylist.data) {
        Some(i) => {
            let updated = DenyList {
                id: lists[i].id,
                reason: new_denylist.reason.clone(),
                action_type: new_denylist.action_type,
                data: lists[i].data.clone(),
            };
            lists.set(i, updated);
            proof {
                if distinct_denylist_ids(before) {
                    lemma_same_ids_distinct(before, lists@);
                }
            }
        },
        None => {
            lists.push(new_denylist.clone());
            proof {
                if distinct_denylist_ids(before) {
                    lemma_max_denylist_id_bounds(before);
                    lemma_push_fresh_distinct(before, new_denylist);
                }
            }
        },
    }
    Ok((new_denylist, lists))
}

} // verus!
