use std::collections::HashMap;
use vstd::prelude::*;

use crate::id::{RoleId, UserId};
use crate::models::backup::{
    BackupAssetbind, BackupBypassRole, BackupCustombind, BackupGroupbind, BackupGuild,
    BackupRankbind,
};
use crate::models::bind::{Assetbind, Custombind, Groupbind, Rankbind, Template};
use crate::models::guild::{BypassRole, PartialRoGuild};

verus! {

pub struct BackupArguments {
    pub name: String,
    pub author: UserId,
}

/// The names of the roles `ids` that the guild has (`names` maps a role id to
/// its name), in the order of `ids`; ids of roles the guild lacks are dropped.
pub open spec fn names_of(ids: Seq<RoleId>, names: Map<u64, String>) -> Seq<String>
    decreases ids.len(),
{
    if ids.len() == 0 {
        Seq::empty()
    } else {
        let rest = names_of(ids.drop_last(), names);
        if names.contains_key(ids.last().0) {
            rest.push(names[ids.last().0])
        } else {
            rest
        }
    }
}

/// The bypass roles recorded by name; those the guild lacks are dropped.
pub open spec fn bypass_names_of(roles: Seq<BypassRole>, names: Map<u64, String>) -> Seq<(Seq<char>, crate::models::guild::BypassRoleKind)>
    decreases roles.len(),
{
    if roles.len() == 0 {
        Seq::empty()
    } else {
        let rest = bypass_names_of(roles.drop_last(), names);
        if names.contains_key(roles.last().role_id.0) {
            rest.push((names[roles.last().role_id.0]@, roles.last().kind))
        } else {
            rest
        }
    }
}

pub open spec fn backs_up_rankbind(b: BackupRankbind, r: Rankbind, names: Map<u64, String>) -> bool {
    &&& b.group_id == r.group_id
    &&& b.group_rank_id == r.group_rank_id
    &&& b.roblox_rank_id == r.roblox_rank_id
    &&& b.priority == r.priority
    &&& b.template == r.template
    &&& b.discord_roles@ == names_of(r.discord_roles@, names)
}

pub open spec fn backs_up_groupbind(b: BackupGroupbind, g: Groupbind, names: Map<u64, String>) -> bool {
    &&& b.group_id == g.group_id
    &&& b.priority == g.priority
    &&& b.template == g.template
    &&& b.discord_roles@ == names_of(g.discord_roles@, names)
}

pub open spec fn backs_up_custombind(b: BackupCustombind, c: Custombind, names: Map<u64, String>) -> bool {
    &&& b.custom_bind_id == c.custom_bind_id
    &&& b.code == c.code
    &&& b.priority == c.priority
    &&& b.template == c.template
    &&& b.discord_roles@ == names_of(c.discord_roles@, names)
}

pub open spec fn backs_up_assetbind(b: BackupAssetbind, a: Assetbind, names: Map<u64, String>) -> bool {
    &&& b.asset_id == a.asset_id
    &&& b.asset_type == a.asset_type
    &&& b.priority == a.priority
    &&& b.template == a.template
    &&& b.discord_roles@ == names_of(a.discord_roles@, names)
}

fn role_names(ids: &[RoleId], names: &HashMap<u64, String>) -> (r: Vec<String>)
    ensures
        r@ == names_of(ids@, names@),
{
    broadcast use vstd::std_specs::hash::group_hash_axioms;

    let mut out: Vec<String> = Vec::new();
    let mut i: usize = 0;
    while i < ids.len()
        invariant
            i <= ids@.len(),
            out@ == names_of(ids@.take(i as int), names@),
        decreases ids@.len() - i,
    {
        assert(ids@.take(i + 1).drop_last() =~= ids@.take(i as int));
        match names.get(&ids[i].0) {
            Some(name) => out.push(name.clone()),
            None => {},
        }
        i = i + 1;
    }
    assert(ids@.take(i as int) =~= ids@);
    out
}

fn backup_bypass_roles(roles: &[BypassRole], names: &HashMap<u64, String>) -> (r: Vec<BackupBypassRole>)
    ensures
        r@.map_values(|b: BackupBypassRole| (b.role@, b.kind)) == bypass_names_of(roles@, names@),
{
    broadcast use vstd::std_specs::hash::group_hash_axioms;

    let mut out: Vec<BackupBypassRole> = Vec::new();
    let mut i: usize = 0;
    while i < roles.len()
        invariant
            i <= roles@.len(),
            out@.map_values(|b: BackupBypassRole| (b.role@, b.kind)) == bypass_names_of(
                roles@.take(i as int),
                names@,
            ),
        decreases roles@.len() - i,
    {
        assert(roles@.take(i + 1).drop_last() =~= roles@.take(i as int));
        let ghost before = out@;
        match names.get(&roles[i].role_id.0) {
            Some(name) => {
                out.push(BackupBypassRole { role: name.clone(), kind: roles[i].kind });
                assert(out@.map_values(|b: BackupBypassRole| (b.role@, b.kind)) =~= before.map_values(
                    |b: BackupBypassRole| (b.role@, b.kind),
                ).push((name@, roles[i as int].kind)));
            },
            None => {},
        }
        i = i + 1;
    }
    assert(roles@.take(i as int) =~= roles@);
    out
}

fn backup_rankbinds(binds: &[Rankbind], names: &HashMap<u64, String>) -> (r: Vec<BackupRankbind>)
    ensures
        r@.len() == binds@.len(),
        forall|i: int| 0 <= i < binds@.len() ==> backs_up_rankbind(#[trigger] r@[i], binds@[i], names@),
{
    let mut out: Vec<BackupRankbind> = Vec::new();
    let mut i: usize = 0;
    while i < binds.len()
        invariant
            i <= binds@.len(),
            out@.len() == i,
            forall|j: int| 0 <= j < i ==> backs_up_rankbind(#[trigger] out@[j], binds@[j], names@),
        decreases binds@.len() - i,
    {
        let b = &binds[i];
        out.push(BackupRankbind {
            group_id: b.group_id,
            discord_roles: role_names(b.discord_roles.as_slice(), names),
            group_rank_id: b.group_rank_id,
            roblox_rank_id: b.roblox_rank_id.clone(),
            priority: b.priority,
            template: b.template.clone(),
        });
        i = i + 1;
    }
    out
}

fn backup_groupbinds(binds: &[Groupbind], names: &HashMap<u64, String>) -> (r: Vec<BackupGroupbind>)
    ensures
        r@.len() == binds@.len(),
        forall|i: int| 0 <= i < binds@.len() ==> backs_up_groupbind(#[trigger] r@[i], binds@[i], names@),
{
    let mut out: Vec<BackupGroupbind> = Vec::new();
    let mut i: usize = 0;
    while i < binds.len()
        invariant
            i <= binds@.len(),
            out@.len() == i,
            forall|j: int| 0 <= j < i ==> backs_up_groupbind(#[trigger] out@[j], binds@[j], names@),
        decreases binds@.len() - i,
    {
        let b = &binds[i];
        out.push(BackupGroupbind {
            group_id: b.group_id,
            discord_roles: role_names(b.discord_roles.as_slice(), names),
            priority: b.priority,
            template: b.template.clone(),
        });
        i = i + 1;
    }
    out
}

fn backup_custombinds(binds: &[Custombind], names: &HashMap<u64, String>) -> (r: Vec<BackupCustombind>)
    ensures
        r@.len() == binds@.len(),
        forall|i: int| 0 <= i < binds@.len() ==> backs_up_custombind(#[trigger] r@[i], binds@[i], names@),
{
    let mut out: Vec<BackupCustombind> = Vec::new();
    let mut i: usize = 0;
    while i < binds.len()
        invariant
            i <= binds@.len(),
            out@.len() == i,
            forall|j: int| 0 <= j < i ==> backs_up_custombind(#[trigger] out@[j], binds@[j], names@),
        decreases binds@.len() - i,
    {
        let b = &binds[i];
        out.push(BackupCustombind {
            custom_bind_id: b.custom_bind_id,
            discord_roles: role_names(b.discord_roles.as_slice(), names),
            code: b.code.clone(),
            priority: b.priority,
            template: b.template.clone(),
        });
        i = i + 1;
    }
    out
}

fn backup_assetbinds(binds: &[Assetbind], names: &HashMap<u64, String>) -> (r: Vec<BackupAssetbind>)
    ensures
        r@.len() == binds@.len(),
        forall|i: int| 0 <= i < binds@.len() ==> backs_up_assetbind(#[trigger] r@[i], binds@[i], names@),
{
    let mut out: Vec<BackupAssetbind> = Vec::new();
    let mut i: usize = 0;
    while i < binds.len()
        invariant
            i <= binds@.len(),
            out@.len() == i,
            forall|j: int| 0 <= j < i ==> backs_up_assetbind(#[trigger] out@[j], binds@[j], names@),
        decreases binds@.len() - i,
    {
        let b = &binds[i];
        out.push(BackupAssetbind {
            asset_id: b.asset_id,
            asset_type: b.asset_type,
            discord_roles: role_names(b.discord_roles.as_slice(), names),
            priority: b.priority,
            template: b.template.clone(),
        });
        i = i + 1;
    }
    out
}

/// The backup of the guild's configuration. `roles` maps the id of each of
/// the guild's roles to its name; roles are recorded by name, and those the
/// guild no longer has are left out. Settings that were never set are backed
/// up with their defaults.
pub fn create_backup(guild: PartialRoGuild, roles: &HashMap<u64, String>) -> (b: BackupGuild)
    ensures
        b.unverified_roles@ == names_of(guild.unverified_roles@, roles@),
        b.verified_roles@ == names_of(guild.verified_roles@, roles@),
        b.bypass_roles@.map_values(|r: BackupBypassRole| (r.role@, r.kind)) == bypass_names_of(
            guild.bypass_roles@,
            roles@,
        ),
        b.rankbinds@.len() == guild.rankbinds@.len(),
        forall|i: int|
            0 <= i < guild.rankbinds@.len() ==> backs_up_rankbind(
                #[trigger] b.rankbinds@[i],
                guild.rankbinds@[i],
                roles@,
            ),
        b.groupbinds@.len() == guild.groupbinds@.len(),
        forall|i: int|
            0 <= i < guild.groupbinds@.len() ==> backs_up_groupbind(
                #[trigger] b.groupbinds@[i],
                guild.groupbinds@[i],
                roles@,
            ),
        b.custombinds@.len() == guild.custombinds@.len(),
        forall|i: int|
            0 <= i < guild.custombinds@.len() ==> backs_up_custombind(
                #[trigger] b.custombinds@[i],
                guild.custombinds@[i],
                roles@,
            ),
        b.assetbinds@.len() == guild.assetbinds@.len(),
        forall|i: int|
            0 <= i < guild.assetbinds@.len() ==> backs_up_assetbind(
                #[trigger] b.assetbinds@[i],
                guild.assetbinds@[i],
                roles@,
            ),
        b.xp_binds@ == guild.xp_binds@,
        b.deny_lists@ == guild.deny_lists@,
        b.event_types@ == guild.event_types@,
        match guild.default_template {
            Some(t) => b.default_template == t,
            None => b.default_template.0@ == "{roblox-username}"@,
        },
        b.update_on_join == (guild.update_on_join == Some(true)),
        b.auto_detection == (guild.auto_detection == Some(true)),
        b.sync_xp_on_setrank == (guild.sync_xp_on_setrank == Some(true)),
{
    let unverified_roles = role_names(guild.unverified_roles.as_slice(), roles);
    let verified_roles = role_names(guild.verified_roles.as_slice(), roles);
    let bypass_roles = backup_bypass_roles(guild.bypass_roles.as_slice(), roles);
    let rankbinds = backup_rankbinds(guild.rankbinds.as_slice(), roles);
    let groupbinds = backup_groupbinds(guild.groupbinds.as_slice(), roles);
    let custombinds = backup_custombinds(guild.custombinds.as_slice(), roles);
    let assetbinds = backup_assetbinds(guild.assetbinds.as_slice(), roles);
    let default_template = match guild.default_template {
        Some(t) => t,
        None => Template::default(),
    };
    let update_on_join = match guild.update_on_join {
        Some(b) => b,
        None => false,
    };
    let auto_detection = match guild.auto_detection {
        Some(b) => b,
        None => false,
    };
    let sync_xp_on_setrank = match guild.sync_xp_on_setrank {
        Some(b) => b,
        None => false,
    };
    BackupGuild {
        bypass_roles,
        unverified_roles,
        verified_roles,
        rankbinds,
        groupbinds,
        assetbinds,
        custombinds,
        xp_binds: guild.xp_binds,
        deny_lists: guild.deny_lists,
        default_template,
        update_on_join,
        event_types: guild.event_types,
        auto_detection,
        sync_xp_on_setrank,
    }
}

/// Backing up bypass roles keeps, in order, each bypass role whose role the
/// guild still has, recorded by that role's name and with its own kind.
pub proof fn lemma_bypass_kinds_kept(roles: Seq<BypassRole>, names: Map<u64, String>)
    ensures
        bypass_names_of(roles, names) == roles.filter(|b: BypassRole| names.contains_key(b.role_id.0)).map_values(
            |b: BypassRole| (names[b.role_id.0]@, b.kind),
        ),
    decreases roles.len(),
{
    let pred = |b: BypassRole| names.contains_key(b.role_id.0);
    let named = |b: BypassRole| (names[b.role_id.0]@, b.kind);
    if roles.len() == 0 {
        assert(roles.filter(pred) =~= Seq::<BypassRole>::empty());
        assert(roles.filter(pred).map_values(named) =~= Seq::<(Seq<char>, crate::models::guild::BypassRoleKind)>::empty());
    } else {
        lemma_bypass_kinds_kept(roles.drop_last(), names);
        reveal_with_fuel(Seq::<BypassRole>::filter, 1);
        let f = roles.drop_last().filter(pred);
        if pred(roles.last()) {
            assert(roles.filter(pred) == f.push(roles.last()));
            assert(f.push(roles.last()).map_values(named) =~= f.map_values(named).push(named(roles.last())));
        } else {
            assert(roles.filter(pred) == f);
        }
    }
}

/// Backing up roles records, in order, the name of each role the guild still
/// has, and drops the others.
pub proof fn lemma_names_kept(ids: Seq<RoleId>, names: Map<u64, String>)
    ensures
        names_of(ids, names) == ids.filter(|r: RoleId| names.contains_key(r.0)).map_values(|r: RoleId| names[r.0]),
    decreases ids.len(),
{
    let pred = |r: RoleId| names.contains_key(r.0);
    let named = |r: RoleId| names[r.0];
    if ids.len() == 0 {
        assert(ids.filter(pred) =~= Seq::<RoleId>::empty());
        assert(ids.filter(pred).map_values(named) =~= Seq::<String>::empty());
    } else {
        lemma_names_kept(ids.drop_last(), names);
        reveal_with_fuel(Seq::<RoleId>::filter, 1);
        let f = ids.drop_last().filter(pred);
        if pred(ids.last()) {
            assert(ids.filter(pred) == f.push(ids.last()));
            assert(f.push(ids.last()).map_values(named) =~= f.map_values(named).push(named(ids.last())));
        } else {
            assert(ids.filter(pred) == f);
        }
    }
}

} // verus!
