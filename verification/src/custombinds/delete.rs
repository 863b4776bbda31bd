use vstd::prelude::*;

use crate::collections::dedup;
use crate::models::bind::Custombind;

verus! {

#[derive(Debug)]
pub struct DeleteCustombind {
    pub deleted: u32,
    pub invalid: Vec<CustombindArguments>,
}

/// A custom bind to delete, named by its id.
#[derive(Clone, Copy, Debug, PartialEq, Eq, Structural)]
pub struct CustombindArguments {
    pub custom_bind_id: u32,
}

/// What deleting custom binds writes back: the ids asked for that exist
/// (each once), the result reported and the list to store, which keeps every
/// other bind in order.
pub struct CustombindDeletion {
    pub to_delete: Vec<u32>,
    pub result: DeleteCustombind,
    pub new_custombinds: Vec<Custombind>,
}

pub open spec fn has_custombind(binds: Seq<Custombind>, id: u32) -> bool {
    exists|i: int| 0 <= i < binds.len() && binds[i].custom_bind_id == id
}

fn is_custombind(binds: &[Custombind], id: u32) -> (r: bool)
    ensures
        r == has_custombind(binds@, id),
{
    let mut i: usize = 0;
    while i < binds.len()
        invariant
            i <= binds@.len(),
            forall|j: int| 0 <= j < i ==> binds@[j].custom_bind_id != id,
        decreases binds@.len() - i,
    {
        if binds[i].custom_bind_id == id {
            return true;
        }
        i = i + 1;
    }
    false
}

fn contains_id(ids: &[u32], id: u32) -> (r: bool)
    ensures
        r == ids@.contains(id),
{
    let mut i: usize = 0;
    while i < ids.len()
        invariant
            i <= ids@.len(),
            forall|j: int| 0 <= j < i ==> ids@[j] != id,
        decreases ids@.len() - i,
    {
        if ids[i] == id {
            assert(ids@[i as int] == id);
            return true;
        }
        i = i + 1;
    }
    false
}

/// Deletes the custom binds named in `args` from the guild's list.
pub fn delete_custombinds(custombinds: Vec<Custombind>, args: Vec<CustombindArguments>) -> (r:
    CustombindDeletion)
    ensures
        r.to_delete@ == dedup(
            args@.map_values(|a: CustombindArguments| a.custom_bind_id).filter(
                |id: u32| has_custombind(custombinds@, id),
            ),
        ),
        r.result.invalid@ == args@.filter(
            |a: CustombindArguments| !has_custombind(custombinds@, a.custom_bind_id),
        ),
        r.result.deleted == r.to_delete@.len() as u32,
        r.new_custombinds@ == custombinds@.filter(
            |b: Custombind| !r.to_delete@.contains(b.custom_bind_id),
        ),
{
    let ghost binds = custombinds@;
    let ghost ids = args@.map_values(|a: CustombindArguments| a.custom_bind_id);
    let mut to_delete: Vec<u32> = Vec::new();
    let mut invalid: Vec<CustombindArguments> = Vec::new();
    let mut i: usize = 0;
    while i < args.len()
        invariant
            i <= args@.len(),
            binds == custombinds@,
            ids == args@.map_values(|a: CustombindArguments| a.custom_bind_id),
            to_delete@ == dedup(ids.take(i as int).filter(|id: u32| has_custombind(binds, id))),
            invalid@ == args@.take(i as int).filter(
                |a: CustombindArguments| !has_custombind(binds, a.custom_bind_id),
            ),
        decreases args@.len() - i,
    {
        let arg = args[i];
        let ghost before = ids.take(i as int).filter(|id: u32| has_custombind(binds, id));
        assert(args@.take(i + 1).drop_last() =~= args@.take(i as int));
        assert(ids.take(i + 1).drop_last() =~= ids.take(i as int));
        assert(ids.take(i + 1).last() == arg.custom_bind_id);
        reveal_with_fuel(Seq::<CustombindArguments>::filter, 1);
        reveal_with_fuel(Seq::<u32>::filter, 1);
        if is_custombind(custombinds.as_slice(), arg.custom_bind_id) {
            assert(ids.take(i + 1).filter(|id: u32| has_custombind(binds, id)) == before.push(
                arg.custom_bind_id,
            ));
            assert(before.push(arg.custom_bind_id).drop_last() =~= before);
            if !contains_id(to_delete.as_slice(), arg.custom_bind_id) {
                to_delete.push(arg.custom_bind_id);
            }
        } else {
            invalid.push(arg);
        }
        i = i + 1;
    }
    assert(args@.take(i as int) =~= args@);
    assert(ids.take(i as int) =~= ids);
    let mut new_custombinds: Vec<Custombind> = Vec::new();
    for b in it: custombinds
        invariant
            it.seq() == binds,
            new_custombinds@ == binds.take(it.index() as int).filter(
                |b: Custombind| !to_delete@.contains(b.custom_bind_id),
            ),
    {
        assert(binds.take(it.index() + 1).drop_last() =~= binds.take(it.index() as int));
        reveal_with_fuel(Seq::<Custombind>::filter, 1);
        if !contains_id(to_delete.as_slice(), b.custom_bind_id) {
            new_custombinds.push(b);
        }
    }
    assert(binds.take(binds.len() as int) =~= binds);
    let deleted = to_delete.len() as u32;
    CustombindDeletion { to_delete, result: DeleteCustombind { deleted, invalid }, new_custombinds }
}

} // verus!
