use vstd::prelude::*;

use crate::collections::dedup;
use crate::models::bind::Rankbind;
use crate::roblox::id::GroupId;

verus! {

#[derive(Debug)]
pub struct DeleteRankbind {
    pub deleted: u32,
    pub invalid: Vec<RankbindArguments>,
}

/// A rank bind to delete, named by its group and rank number.
#[derive(Clone, Copy, Debug, PartialEq, Eq, Structural)]
pub struct RankbindArguments {
    pub group_id: GroupId,
    pub rank_id: u32,
}

/// What deleting rank binds writes back: the binds asked for that exist
/// (each once), the result reported (`deleted` counts them) and the list to
/// store, which keeps every other bind in order.
pub struct RankbindDeletion {
    pub to_delete: Vec<RankbindArguments>,
    pub result: DeleteRankbind,
    pub new_rankbinds: Vec<Rankbind>,
}

pub open spec fn key_of(b: Rankbind) -> RankbindArguments {
    RankbindArguments { group_id: b.group_id, rank_id: b.group_rank_id }
}

/// Some bind of `binds` is for that group and rank.
pub open spec fn has_rankbind(binds: Seq<Rankbind>, arg: RankbindArguments) -> bool {
    exists|i: int| 0 <= i < binds.len() && key_of(binds[i]) == arg
}

fn is_rankbind(binds: &[Rankbind], arg: RankbindArguments) -> (r: bool)
    ensures
        r == has_rankbind(binds@, arg),
{
    let mut i: usize = 0;
    while i < binds.len()
        invariant
            i <= binds@.len(),
            forall|j: int| 0 <= j < i ==> key_of(binds@[j]) != arg,
        decreases binds@.len() - i,
    {
        if binds[i].group_id == arg.group_id && binds[i].group_rank_id == arg.rank_id {
            assert(key_of(binds@[i as int]) == arg);
            return true;
        }
        i = i + 1;
    }
    false
}

fn contains_key(keys: &[RankbindArguments], key: RankbindArguments) -> (r: bool)
    ensures
        r == keys@.contains(key),
{
    let mut i: usize = 0;
    while i < keys.len()
        invariant
            i <= keys@.len(),
            forall|j: int| 0 <= j < i ==> keys@[j] != key,
        decreases keys@.len() - i,
    {
        if keys[i] == key {
            assert(keys@[i as int] == key);
            return true;
        }
        i = i + 1;
    }
    false
}

/// Deletes the rank binds named in `args` from the guild's list.
pub fn delete_rankbinds(rankbinds: Vec<Rankbind>, args: Vec<RankbindArguments>) -> (r:
    RankbindDeletion)
    ensures
        r.to_delete@ == dedup(args@.filter(|a: RankbindArguments| has_rankbind(rankbinds@, a))),
        r.result.invalid@ == args@.filter(|a: RankbindArguments| !has_rankbind(rankbinds@, a)),
        r.result.deleted == r.to_delete@.len() as u32,
        r.new_rankbinds@ == rankbinds@.filter(|b: Rankbind| !r.to_delete@.contains(key_of(b))),
{
    let ghost binds = rankbinds@;
    let mut to_delete: Vec<RankbindArguments> = Vec::new();
    let mut invalid: Vec<RankbindArguments> = Vec::new();
    let mut i: usize = 0;
    while i < args.len()
        invariant
            i <= args@.len(),
            binds == rankbinds@,
            to_delete@ == dedup(
                args@.take(i as int).filter(|a: RankbindArguments| has_rankbind(binds, a)),
            ),
            invalid@ == args@.take(i as int).filter(
                |a: RankbindArguments| !has_rankbind(binds, a),
            ),
        decreases args@.len() - i,
    {
        let arg = args[i];
        let ghost before = args@.take(i as int).filter(
            |a: RankbindArguments| has_rankbind(binds, a),
        );
        assert(args@.take(i + 1).drop_last() =~= args@.take(i as int));
        reveal_with_fuel(Seq::<RankbindArguments>::filter, 1);
        if is_rankbind(rankbinds.as_slice(), arg) {
            assert(args@.take(i + 1).filter(|a: RankbindArguments| has_rankbind(binds, a))
                == before.push(arg));
            assert(before.push(arg).drop_last() =~= before);
            if !contains_key(to_delete.as_slice(), arg) {
                to_delete.push(arg);
            }
        } else {
            invalid.push(arg);
        }
        i = i + 1;
    }
    assert(args@.take(i as int) =~= args@);
    let mut new_rankbinds: Vec<Rankbind> = Vec::new();
    for b in it: rankbinds
        invariant
            it.seq() == binds,
            new_rankbinds@ == binds.take(it.index() as int).filter(
                |b: Rankbind| !to_delete@.contains(key_of(b)),
            ),
    {
        assert(binds.take(it.index() + 1).drop_last() =~= binds.take(it.index() as int));
        reveal_with_fuel(Seq::<Rankbind>::filter, 1);
        let key = RankbindArguments { group_id: b.group_id, rank_id: b.group_rank_id };
        if !contains_key(to_delete.as_slice(), key) {
            new_rankbinds.push(b);
        }
    }
    assert(binds.take(binds.len() as int) =~= binds);
    let deleted = to_delete.len() as u32;
    RankbindDeletion { to_delete, result: DeleteRankbind { deleted, invalid }, new_rankbinds }
}

} // verus!
