//! Adding and deleting group binds.
use std::collections::HashMap;
use vstd::prelude::*;

use crate::collections::dedup;
use crate::error::RoError;
use crate::id::RoleId;
use crate::models::bind::{Groupbind, Template};
use crate::models::discord::CachedRole;
use crate::roblox::id::GroupId;
use crate::server_roles::{is_assignable, is_managed, partition_roles};

verus! {

#[derive(Debug)]
pub struct AddGroupbind {
    pub bind: Groupbind,
    pub ignored_roles: Vec<RoleId>,
    pub modified: bool,
}

pub enum AddGroupbindError {
    InvalidGroup,
    Generic(RoError),
}

impl From<RoError> for AddGroupbindError {
    fn from(err: RoError) -> (r: Self) {
        AddGroupbindError::Generic(err)
    }
}

impl vstd::std_specs::convert::FromSpecImpl<RoError> for AddGroupbindError {
    open spec fn obeys_from_spec() -> bool {
        true
    }

    open spec fn from_spec(err: RoError) -> Self {
        AddGroupbindError::Generic(err)
    }
}

#[derive(Debug)]
pub struct GroupbindArguments {
    pub group_id: GroupId,
    pub template: Template,
    pub priority: Option<i32>,
    pub discord_roles: Vec<RoleId>,
}

#[derive(Debug)]
pub struct DeleteGroupbind {
    pub deleted: u32,
    pub invalid: Vec<GroupId>,
}

/// What deleting group binds writes back: the group ids that name an
/// existing bind (each once), those that name none, and the list stored.
pub struct GroupbindDeletion {
    pub to_delete: Vec<GroupId>,
    pub invalid: Vec<GroupId>,
    pub new_groupbinds: Vec<Groupbind>,
}

/// No two of the binds are for the same group.
#[verifier::opaque]
pub open spec fn distinct_groups(binds: Seq<Groupbind>) -> bool {
    forall|i: int, j: int| 0 <= i < j < binds.len() ==> binds[i].group_id != binds[j].group_id
}

proof fn lemma_same_groups_distinct(before: Seq<Groupbind>, after: Seq<Groupbind>)
    requires
        distinct_groups(before),
        after.len() == before.len(),
        forall|k: int| 0 <= k < after.len() ==> after[k].group_id == before[k].group_id,
    ensures
        distinct_groups(after),
{
    reveal(distinct_groups);
}

proof fn lemma_push_new_group_distinct(before: Seq<Groupbind>, x: Groupbind)
    requires
        distinct_groups(before),
        !has_groupbind(before, x.group_id),
    ensures
        distinct_groups(before.push(x)),
{
    reveal(distinct_groups);
    assert forall|i: int, j: int| 0 <= i < j < before.push(x).len() implies before.push(x)[i].group_id
        != before.push(x)[j].group_id by {
        assert(before.push(x)[i] == before[i]);
        if j < before.len() {
            assert(before.push(x)[j] == before[j]);
        }
    }
}

proof fn lemma_filter_distinct_groups(s: Seq<Groupbind>, pred: spec_fn(Groupbind) -> bool)
    requires
        distinct_groups(s),
    ensures
        distinct_groups(s.filter(pred)),
    decreases s.len(),
{
    reveal(distinct_groups);
    if s.len() > 0 {
        let d = s.drop_last();
        let x = s.last();
        assert(distinct_groups(d)) by {
            reveal(distinct_groups);
            assert forall|i: int, j: int| 0 <= i < j < d.len() implies d[i].group_id != d[j].group_id by {
                assert(d[i] == s[i]);
                assert(d[j] == s[j]);
            }
        }
        lemma_filter_distinct_groups(d, pred);
        reveal_with_fuel(Seq::<Groupbind>::filter, 1);
        assert(s.filter(pred) == if pred(x) { d.filter(pred).push(x) } else { d.filter(pred) });
        if pred(x) {
            let f = d.filter(pred);
            assert forall|i: int| 0 <= i < f.len() implies f[i].group_id != x.group_id by {
                assert(f.contains(f[i]));
                d.lemma_filter_contains_rev(pred, f[i]);
                let j = choose|j: int| 0 <= j < d.len() && d[j] == f[i];
                assert(s[j] == d[j]);
                assert(s[s.len() - 1] == x);
            }
            lemma_push_new_group_distinct(f, x);
        }
    }
}

/// Some bind of `binds` is for `group`.
pub open spec fn has_groupbind(binds: Seq<Groupbind>, group: GroupId) -> bool {
    exists|i: int| 0 <= i < binds.len() && binds[i].group_id == group
}

/// `b` holds the values of the bind made from `args` with the roles `roles`.
pub open spec fn groupbind_from(b: Groupbind, args: GroupbindArguments, roles: Seq<RoleId>) -> bool {
    &&& b.group_id == args.group_id
    &&& b.discord_roles@ == roles
    &&& b.priority == match args.priority {
        Some(p) => p,
        None => 0i32,
    }
    &&& b.template == args.template
}

fn find_groupbind(binds: &[Groupbind], group: GroupId) -> (r: Option<usize>)
    ensures
        r is None <==> !has_groupbind(binds@, group),
        r matches Some(i) ==> i < binds@.len() && binds@[i as int].group_id == group && forall|
            j: int,
        |
            0 <= j < i ==> binds@[j].group_id != group,
{
    let mut i: usize = 0;
    while i < binds.len()
        invariant
            i <= binds@.len(),
            forall|j: int| 0 <= j < i ==> binds@[j].group_id != group,
        decreases binds@.len() - i,
    {
        if binds[i].group_id == group {
            return Some(i);
        }
        i = i + 1;
    }
    None
}

/// Adds a group bind to the guild's list, or updates the bind for the same
/// group (the first one) in place. `group_exists` is whether Roblox knows the
/// group. The bind gives the requested roles that the guild has and that no
/// integration manages; managed ones are reported back. Returns the result
/// and the list to store.
pub fn add_groupbind(
    group_exists: bool,
    existing_groupbinds: Vec<Groupbind>,
    server_roles: &HashMap<u64, CachedRole>,
    args: GroupbindArguments,
) -> (r: Result<(AddGroupbind, Vec<Groupbind>), AddGroupbindError>)
    ensures
        !group_exists ==> r matches Err(AddGroupbindError::InvalidGroup),
        group_exists ==> (r matches Ok((added, stored)) && {
            let roles = args.discord_roles@.filter(|x: RoleId| is_assignable(server_roles@, x));
            &&& groupbind_from(added.bind, args, roles)
            &&& added.ignored_roles@ == args.discord_roles@.filter(
                |x: RoleId| is_managed(server_roles@, x),
            )
            &&& added.modified == has_groupbind(existing_groupbinds@, args.group_id)
            &&& if added.modified {
                &&& stored@.len() == existing_groupbinds@.len()
                &&& exists|i: int|
                    0 <= i < stored@.len() && existing_groupbinds@[i].group_id == args.group_id
                        && (forall|j: int|
                        0 <= j < i ==> existing_groupbinds@[j].group_id != args.group_id)
                        && groupbind_from(stored@[i], args, roles) && (forall|j: int|
                        0 <= j < stored@.len() && j != i ==> stored@[j]
                            == existing_groupbinds@[j])
            } else {
                &&& stored@.len() == existing_groupbinds@.len() + 1
                &&& stored@.take(existing_groupbinds@.len() as int) == existing_groupbinds@
                &&& groupbind_from(stored@.last(), args, roles)
            }
        }),
        distinct_groups(existing_groupbinds@) ==> (r matches Ok((_, stored)) ==> distinct_groups(stored@)),
{
    if !group_exists {
        return Err(AddGroupbindError::InvalidGroup);
    }
    let ghost old_binds = existing_groupbinds@;
    let (roles_to_add, ignored_roles) = partition_roles(args.discord_roles.as_slice(), server_roles);
    let new_bind = Groupbind {
        group_id: args.group_id,
        discord_roles: roles_to_add,
        priority: match args.priority {
            Some(p) => p,
            None => 0,
        },
        template: args.template,
    };
    let mut binds = existing_groupbinds;
    let stored = new_bind.clone();
    let modified = match find_groupbind(binds.as_slice(), new_bind.group_id) {
        Some(i) => {
            binds.set(i, stored);
            assert(binds@[i as int] == stored);
            proof {
                if distinct_groups(old_binds) {
                    lemma_same_groups_distinct(old_binds, binds@);
                }
            }
            true
        },
        None => {
            binds.push(stored);
            assert(binds@.take(old_binds.len() as int) =~= old_binds);
            proof {
                if distinct_groups(old_binds) {
                    lemma_push_new_group_distinct(old_binds, stored);
                }
            }
            false
        },
    };
    Ok((AddGroupbind { bind: new_bind, ignored_roles, modified }, binds))
}

fn contains_group(ids: &[GroupId], id: GroupId) -> (r: bool)
    ensures
        r == ids@.contains(id),
{
    let mut i: usize = 0;
    while i < ids.len()
        invariant
            i <= ids@.len(),
            forall|j: int| 0 <= j < i ==> ids@[j] != id,
        decreases ids@.len() - i,
    {
        if ids[i] == id {
            assert(ids@[i as int] == id);
            return true;
        }
        i = i + 1;
    }
    false
}

/// What deleting the group binds of `args` writes back: the groups asked for
/// that have a bind (each once), those that have none, and the binds to store,
/// which are all the others, in order.
pub fn delete_groupbinds(groupbinds: Vec<Groupbind>, args: Vec<GroupId>) -> (r: GroupbindDeletion)
    ensures
        r.to_delete@ == dedup(args@.filter(|a: GroupId| has_groupbind(groupbinds@, a))),
        r.invalid@ == args@.filter(|a: GroupId| !has_groupbind(groupbinds@, a)),
        r.new_groupbinds@ == groupbinds@.filter(|b: Groupbind| !r.to_delete@.contains(b.group_id)),
        distinct_groups(groupbinds@) ==> distinct_groups(r.new_groupbinds@),
{
    let ghost binds = groupbinds@;
    let mut to_delete: Vec<GroupId> = Vec::new();
    let mut invalid: Vec<GroupId> = Vec::new();
    let mut i: usize = 0;
    while i < args.len()
        invariant
            i <= args@.len(),
            binds == groupbinds@,
            to_delete@ == dedup(args@.take(i as int).filter(|a: GroupId| has_groupbind(binds, a))),
            invalid@ == args@.take(i as int).filter(|a: GroupId| !has_groupbind(binds, a)),
        decreases args@.len() - i,
    {
        let arg = args[i];
        let ghost before = args@.take(i as int).filter(|a: GroupId| has_groupbind(binds, a));
        assert(args@.take(i + 1).drop_last() =~= args@.take(i as int));
        reveal_with_fuel(Seq::<GroupId>::filter, 1);
        if find_groupbind(groupbinds.as_slice(), arg).is_some() {
            assert(args@.take(i + 1).filter(|a: GroupId| has_groupbind(binds, a)) == before.push(
                arg,
            ));
            assert(before.push(arg).drop_last() =~= before);
            if !contains_group(to_delete.as_slice(), arg) {
                to_delete.push(arg);
            }
        } else {
            invalid.push(arg);
        }
        i = i + 1;
    }
    assert(args@.take(i as int) =~= args@);
    let mut new_groupbinds: Vec<Groupbind> = Vec::new();
    for b in it: groupbinds
        invariant
            it.seq() == binds,
            new_groupbinds@ == binds.take(it.index() as int).filter(
                |b: Groupbind| !to_delete@.contains(b.group_id),
            ),
    {
        assert(binds.take(it.index() + 1).drop_last() =~= binds.take(it.index() as int));
        reveal_with_fuel(Seq::<Groupbind>::filter, 1);
        if !contains_group(to_delete.as_slice(), b.group_id) {
            new_groupbinds.push(b);
        }
    }
    assert(binds.take(binds.len() as int) =~= binds);
    proof {
        if distinct_groups(binds) {
            lemma_filter_distinct_groups(binds, |b: Groupbind| !to_delete@.contains(b.group_id));
        }
    }
    GroupbindDeletion { to_delete, invalid, new_groupbinds }
}

} // verus!
