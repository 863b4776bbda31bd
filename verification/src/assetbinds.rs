//! Adding and deleting asset binds.
use std::collections::HashMap;
use vstd::prelude::*;

use crate::error::RoError;
use crate::id::RoleId;
use crate::models::bind::{AssetType, Assetbind, Template};
use crate::models::discord::CachedRole;
use crate::roblox::id::AssetId;
use crate::server_roles::{is_assignable, is_managed, partition_roles};

verus! {

#[derive(Debug)]
pub struct DeleteAssetbind {
    pub deleted: u32,
    pub invalid: Vec<AssetId>,
}

#[derive(Debug)]
pub struct AddAssetbind {
    pub bind: Assetbind,
    pub ignored_roles: Vec<RoleId>,
    pub modified: bool,
}

pub enum AddAssetbindError {
    Generic(RoError),
}

impl From<RoError> for AddAssetbindError {
    fn from(err: RoError) -> (r: Self) {
        AddAssetbindError::Generic(err)
    }
}

impl vstd::std_specs::convert::FromSpecImpl<RoError> for AddAssetbindError {
    open spec fn obeys_from_spec() -> bool {
        true
    }

    open spec fn from_spec(err: RoError) -> Self {
        AddAssetbindError::Generic(err)
    }
}

#[derive(Debug)]
pub struct AssetbindArguments {
    pub kind: AssetType,
    pub asset_id: AssetId,
    pub template: Template,
    pub priority: Option<i32>,
    pub discord_roles: Vec<RoleId>,
}

/// What deleting asset binds writes back: the asset ids that name an
/// existing bind (each once, in the order first asked), the ids that name
/// none (in the order asked), and the list stored for the guild.
pub struct AssetbindDeletion {
    pub to_delete: Vec<AssetId>,
    pub invalid: Vec<AssetId>,
    pub new_assetbinds: Vec<Assetbind>,
}

/// Some bind of `binds` is for `asset`.
pub open spec fn has_assetbind(binds: Seq<Assetbind>, asset: AssetId) -> bool {
    exists|i: int| 0 <= i < binds.len() && binds[i].asset_id == asset
}

/// The first position of a bind for `asset`, if any.
pub open spec fn assetbind_position(binds: Seq<Assetbind>, asset: AssetId) -> Option<int>
    decreases binds.len(),
{
    if binds.len() == 0 {
        None
    } else {
        match assetbind_position(binds.drop_last(), asset) {
            Some(i) => Some(i),
            None => if binds.last().asset_id == asset {
                Some(binds.len() - 1)
            } else {
                None
            },
        }
    }
}

fn find_assetbind(binds: &[Assetbind], asset: AssetId) -> (r: Option<usize>)
    ensures
        match assetbind_position(binds@, asset) {
            Some(i) => r == Some(i as usize),
            None => r is None,
        },
        r is None <==> !has_assetbind(binds@, asset),
        r matches Some(i) ==> i < binds@.len() && binds@[i as int].asset_id == asset,
{
    let mut i: usize = 0;
    while i < binds.len()
        invariant
            i <= binds@.len(),
            assetbind_position(binds@.take(i as int), asset) is None,
            forall|j: int| 0 <= j < i ==> binds@[j].asset_id != asset,
        decreases binds@.len() - i,
    {
        assert(binds@.take(i + 1).drop_last() =~= binds@.take(i as int));
        if binds[i].asset_id == asset {
            proof {
                lemma_assetbind_position_prefix(binds@, (i + 1) as int, asset);
            }
            return Some(i);
        }
        i = i + 1;
    }
    assert(binds@.take(i as int) =~= binds@);
    None
}

pub proof fn lemma_assetbind_position_prefix(binds: Seq<Assetbind>, k: int, asset: AssetId)
    requires
        0 <= k <= binds.len(),
        assetbind_position(binds.take(k), asset) is Some,
    ensures
        assetbind_position(binds, asset) == assetbind_position(binds.take(k), asset),
    decreases binds.len() - k,
{
    if k < binds.len() {
        assert(binds.take(k + 1).drop_last() =~= binds.take(k));
        lemma_assetbind_position_prefix(binds, k + 1, asset);
    } else {
        assert(binds.take(k) =~= binds);
    }
}

/// The bind that adding an asset bind stores, and where: the position of the
/// existing bind for the same asset, which it replaces (`modified`), or the
/// end of the list. The bind gives the requested roles that the guild has
/// and that no integration manages; the managed ones are reported back.
pub fn add_assetbind(
    existing_assetbinds: &[Assetbind],
    server_roles: &HashMap<u64, CachedRole>,
    args: AssetbindArguments,
) -> (r: (AddAssetbind, usize))
    ensures
        r.0.bind.asset_type == args.kind,
        r.0.bind.asset_id == args.asset_id,
        r.0.bind.discord_roles@ == args.discord_roles@.filter(
            |x: RoleId| is_assignable(server_roles@, x),
        ),
        r.0.bind.priority == match args.priority {
            Some(p) => p,
            None => 0i32,
        },
        r.0.bind.template == args.template,
        r.0.ignored_roles@ == args.discord_roles@.filter(|x: RoleId| is_managed(server_roles@, x)),
        r.0.modified == has_assetbind(existing_assetbinds@, args.asset_id),
        r.1 == match assetbind_position(existing_assetbinds@, args.asset_id) {
            Some(i) => i as usize,
            None => existing_assetbinds@.len() as usize,
        },
{
    let (roles_to_add, ignored_roles) = partition_roles(args.discord_roles.as_slice(), server_roles);
    let bind = Assetbind {
        asset_type: args.kind,
        asset_id: args.asset_id,
        discord_roles: roles_to_add,
        priority: match args.priority {
            Some(p) => p,
            None => 0,
        },
        template: args.template,
    };
    let idx = find_assetbind(existing_assetbinds, bind.asset_id);
    let slot = match idx {
        Some(i) => i,
        None => existing_assetbinds.len(),
    };
    (AddAssetbind { bind, ignored_roles, modified: idx.is_some() }, slot)
}

/// What deleting the asset binds of `args` writes back. The stored list is
/// made of the binds whose asset is among those deleted.
pub fn delete_assetbinds(assetbinds: Vec<Assetbind>, args: Vec<AssetId>) -> (r: AssetbindDeletion)
    ensures
        r.to_delete@ == crate::collections::dedup(
            args@.filter(|a: AssetId| has_assetbind(assetbinds@, a)),
        ),
        r.invalid@ == args@.filter(|a: AssetId| !has_assetbind(assetbinds@, a)),
        r.new_assetbinds@ == assetbinds@.filter(|b: Assetbind| r.to_delete@.contains(b.asset_id)),
{
    let ghost binds = assetbinds@;
    let mut to_delete: Vec<AssetId> = Vec::new();
    let mut invalid: Vec<AssetId> = Vec::new();
    let mut i: usize = 0;
    while i < args.len()
        invariant
            i <= args@.len(),
            binds == assetbinds@,
            to_delete@ == crate::collections::dedup(
                args@.take(i as int).filter(|a: AssetId| has_assetbind(binds, a)),
            ),
            invalid@ == args@.take(i as int).filter(|a: AssetId| !has_assetbind(binds, a)),
        decreases args@.len() - i,
    {
        let arg = args[i];
        let ghost before = args@.take(i as int).filter(|a: AssetId| has_assetbind(binds, a));
        assert(args@.take(i + 1).drop_last() =~= args@.take(i as int));
        reveal_with_fuel(Seq::<AssetId>::filter, 1);
        if find_assetbind(assetbinds.as_slice(), arg).is_some() {
            assert(args@.take(i + 1).filter(|a: AssetId| has_assetbind(binds, a)) == before.push(
                arg,
            ));
            assert(before.push(arg).drop_last() =~= before);
            if !contains_asset(to_delete.as_slice(), arg) {
                to_delete.push(arg);
            }
        } else {
            invalid.push(arg);
        }
        i = i + 1;
    }
    assert(args@.take(i as int) =~= args@);
    let mut new_assetbinds: Vec<Assetbind> = Vec::new();
    for b in it: assetbinds
        invariant
            it.seq() == binds,
            new_assetbinds@ == binds.take(it.index() as int).filter(
                |b: Assetbind| to_delete@.contains(b.asset_id),
            ),
    {
        assert(binds.take(it.index() + 1).drop_last() =~= binds.take(it.index() as int));
        reveal_with_fuel(Seq::<Assetbind>::filter, 1);
        if contains_asset(to_delete.as_slice(), b.asset_id) {
            new_assetbinds.push(b);
        }
    }
    assert(binds.take(binds.len() as int) =~= binds);
    AssetbindDeletion { to_delete, invalid, new_assetbinds }
}

fn contains_asset(ids: &[AssetId], id: AssetId) -> (r: bool)
    ensures
        r == ids@.contains(id),
{
    let mut i: usize = 0;
    while i < ids.len()
        invariant
            i <= ids@.len(),
            forall|j: int| 0 <= j < i ==> ids@[j] != id,
        decreases ids@.len() - i,
    {
        if ids[i] == id {
            assert(ids@[i as int] == id);
            return true;
        }
        i = i + 1;
    }
    false
}

} // verus!
