use vstd::prelude::*;

use crate::collections::dedup;
use crate::models::deny_list::DenyList;
use super::add::{distinct_denylist_ids, lemma_filter_distinct_denylist_ids};

verus! {

#[derive(Debug)]
pub struct DeleteDenylist {
    pub deleted: u32,
    pub invalid: Vec<u32>,
}

/// What deleting deny lists writes back: the ids asked for that exist (each
/// once), the result reported and the lists to store, which keep every other
/// deny list in order.
pub struct DenylistDeletion {
    pub to_delete: Vec<u32>,
    pub result: DeleteDenylist,
    pub new_denylists: Vec<DenyList>,
}

pub open spec fn has_denylist(lists: Seq<DenyList>, id: u32) -> bool {
    exists|i: int| 0 <= i < lists.len() && lists[i].id == id
}

fn is_denylist(lists: &[DenyList], id: u32) -> (r: bool)
    ensures
        r == has_denylist(lists@, id),
{
    let mut i: usize = 0;
    while i < lists.len()
        invariant
            i <= lists@.len(),
            forall|j: int| 0 <= j < i ==> lists@[j].id != id,
        decreases lists@.len() - i,
    {
        if lists[i].id == id {
            return true;
        }
        i = i + 1;
    }
    false
}

fn contains_id(ids: &[u32], id: u32) -> (r: bool)
    ensures
        r == ids@.contains(id),
{
    let mut i: usize = 0;
    while i < ids.len()
        invariant
            i <= ids@.len(),
            forall|j: int| 0 <= j < i ==> ids@[j] != id,
        decreases ids@.len() - i,
    {
        if ids[i] == id {
            assert(ids@[i as int] == id);
            return true;
        }
        i = i + 1;
    }
    false
}

/// Deletes the deny lists with the ids of `args` from the guild's lists.
pub fn delete_denylists(denylists: Vec<DenyList>, args: Vec<u32>) -> (r: DenylistDeletion)
    ensures
        r.to_delete@ == dedup(args@.filter(|id: u32| has_denylist(denylists@, id))),
        r.result.invalid@ == args@.filter(|id: u32| !has_denylist(denylists@, id)),
        r.result.deleted == r.to_delete@.len() as u32,
        r.new_denylists@ == denylists@.filter(|d: DenyList| !r.to_delete@.contains(d.id)),
        distinct_denylist_ids(denylists@) ==> distinct_denylist_ids(r.new_denylists@),
{
    let ghost lists = denylists@;
    let mut to_delete: Vec<u32> = Vec::new();
    let mut invalid: Vec<u32> = Vec::new();
    let mut i: usize = 0;
    while i < args.len()
        invariant
            i <= args@.len(),
            lists == denylists@,
            to_delete@ == dedup(args@.take(i as int).filter(|id: u32| has_denylist(lists, id))),
            invalid@ == args@.take(i as int).filter(|id: u32| !has_denylist(lists, id)),
        decreases args@.len() - i,
    {
        let arg = args[i];
        let ghost before = args@.take(i as int).filter(|id: u32| has_denylist(lists, id));
        assert(args@.take(i + 1).drop_last() =~= args@.take(i as int));
        reveal_with_fuel(Seq::<u32>::filter, 1);
        if is_denylist(denylists.as_slice(), arg) {
            assert(args@.take(i + 1).filter(|id: u32| has_denylist(lists, id)) == before.push(arg));
            assert(before.push(arg).drop_last() =~= before);
            if !contains_id(to_delete.as_slice(), arg) {
                to_delete.push(arg);
            }
        } else {
            invalid.push(arg);
        }
        i = i + 1;
    }
    assert(args@.take(i as int) =~= args@);
    let mut new_denylists: Vec<DenyList> = Vec::new();
    for d in it: denylists
        invariant
            it.seq() == lists,
            new_denylists@ == lists.take(it.index() as int).filter(
                |d: DenyList| !to_delete@.contains(d.id),
            ),
    {
        assert(lists.take(it.index() + 1).drop_last() =~= lists.take(it.index() as int));
        reveal_with_fuel(Seq::<DenyList>::filter, 1);
        if !contains_id(to_delete.as_slice(), d.id) {
            new_denylists.push(d);
        }
    }
    assert(lists.take(lists.len() as int) =~= lists);
    proof {
        if distinct_denylist_ids(lists) {
            lemma_filter_distinct_denylist_ids(lists, |d: DenyList| !to_delete@.contains(d.id));
        }
    }
    let deleted = to_delete.len() as u32;
    DenylistDeletion { to_delete, result: DeleteDenylist { deleted, invalid }, new_denylists }
}

} // verus!
