use vstd::prelude::*;

use crate::collections::dedup;
use crate::error::RoError;
use crate::id::RoleId;
use crate::models::backup::{
    BackupAssetbind, BackupBypassRole, BackupCustombind, BackupGroupbind, BackupGuild,
    BackupRankbind,
};
use crate::models::bind::{Assetbind, Custombind, Groupbind, Rankbind};
use crate::models::guild::{BypassRole, PartialRoGuild};
use crate::text::texts;

verus! {

pub struct BackupArguments {
    pub name: String,
}

pub enum BackupError {
    NotFound,
    Other(RoError),
}

/// A stored backup, as read back.
pub struct BackupGuildRow {
    pub data: BackupGuild,
}

pub open spec fn rankbind_role_names(binds: Seq<BackupRankbind>) -> Seq<Seq<char>>
    decreases binds.len(),
{
    if binds.len() == 0 {
        Seq::empty()
    } else {
        rankbind_role_names(binds.drop_last()) + texts(binds.last().discord_roles@)
    }
}

pub open spec fn groupbind_role_names(binds: Seq<BackupGroupbind>) -> Seq<Seq<char>>
    decreases binds.len(),
{
    if binds.len() == 0 {
        Seq::empty()
    } else {
        groupbind_role_names(binds.drop_last()) + texts(binds.last().discord_roles@)
    }
}

pub open spec fn custombind_role_names(binds: Seq<BackupCustombind>) -> Seq<Seq<char>>
    decreases binds.len(),
{
    if binds.len() == 0 {
        Seq::empty()
    } else {
        custombind_role_names(binds.drop_last()) + texts(binds.last().discord_roles@)
    }
}

pub open spec fn assetbind_role_names(binds: Seq<BackupAssetbind>) -> Seq<Seq<char>>
    decreases binds.len(),
{
    if binds.len() == 0 {
        Seq::empty()
    } else {
        assetbind_role_names(binds.drop_last()) + texts(binds.last().discord_roles@)
    }
}

/// Every role name that the backup mentions, in the order: the binds' roles
/// (rank, group, custom, asset binds), the unverified roles, the verified
/// roles, the bypass roles.
pub open spec fn mentioned_role_names(b: BackupGuild) -> Seq<Seq<char>> {
    rankbind_role_names(b.rankbinds@) + groupbind_role_names(b.groupbinds@) + custombind_role_names(
        b.custombinds@,
    ) + assetbind_role_names(b.assetbinds@) + texts(b.unverified_roles@) + texts(
        b.verified_roles@,
    ) + b.bypass_roles@.map_values(|r: BackupBypassRole| r.role@)
}

/// Adds each of `names` to `out` unless a role of that name is there already.
fn add_names(out: &mut Vec<String>, names: &[String], Ghost(acc): Ghost<Seq<Seq<char>>>)
    requires
        texts(old(out)@) == dedup(acc),
    ensures
        texts(final(out)@) == dedup(acc + texts(names@)),
{
    let mut i: usize = 0;
    while i < names.len()
        invariant
            i <= names@.len(),
            texts(out@) == dedup(acc + texts(names@.take(i as int))),
        decreases names@.len() - i,
    {
        let ghost prefix = acc + texts(names@.take(i as int));
        let ghost next = acc + texts(names@.take(i + 1));
        assert(next.drop_last() =~= prefix);
        assert(next.last() == names@[i as int]@);
        let mut found = false;
        let mut k: usize = 0;
        while k < out.len()
            invariant
                k <= out@.len(),
                texts(out@) == dedup(prefix),
                i < names@.len(),
                found == exists|j: int| 0 <= j < k && out@[j]@ == names@[i as int]@,
            decreases out@.len() - k,
        {
            if out[k] == names[i] {
                found = true;
            }
            k = k + 1;
        }
        assert(found == texts(out@).contains(names@[i as int]@)) by {
            if found {
                let j = choose|j: int| 0 <= j < k && out@[j]@ == names@[i as int]@;
                assert(texts(out@)[j] == names@[i as int]@);
            }
            if texts(out@).contains(names@[i as int]@) {
                let j = choose|j: int| 0 <= j < texts(out@).len() && texts(out@)[j] == names@[i as int]@;
                assert(out@[j]@ == names@[i as int]@);
            }
        }
        if !found {
            let ghost before = out@;
            out.push(names[i].clone());
            assert(texts(out@) =~= texts(before).push(names@[i as int]@));
        }
        i = i + 1;
    }
    assert(names@.take(i as int) =~= names@);
}

/// The names of the roles that the backup mentions, each once, in the order
/// of their first mention.
pub fn backup_role_names(backup: &BackupGuild) -> (names: Vec<String>)
    ensures
        texts(names@) == dedup(mentioned_role_names(*backup)),
{
    let mut out: Vec<String> = Vec::new();
    let ghost mut acc: Seq<Seq<char>> = Seq::empty();
    assert(texts(out@) =~= dedup(acc));
    let mut i: usize = 0;
    while i < backup.rankbinds.len()
        invariant
            i <= backup.rankbinds@.len(),
            acc == rankbind_role_names(backup.rankbinds@.take(i as int)),
            texts(out@) == dedup(acc),
        decreases backup.rankbinds@.len() - i,
    {
        assert(backup.rankbinds@.take(i + 1).drop_last() =~= backup.rankbinds@.take(i as int));
        add_names(&mut out, backup.rankbinds[i].discord_roles.as_slice(), Ghost(acc));
        proof {
            acc = acc + texts(backup.rankbinds@[i as int].discord_roles@);
        }
        i = i + 1;
    }
    assert(backup.rankbinds@.take(i as int) =~= backup.rankbinds@);
    let ghost base = acc;
    let mut i: usize = 0;
    while i < backup.groupbinds.len()
        invariant
            i <= backup.groupbinds@.len(),
            acc == base + groupbind_role_names(backup.groupbinds@.take(i as int)),
            texts(out@) == dedup(acc),
        decreases backup.groupbinds@.len() - i,
    {
        assert(backup.groupbinds@.take(i + 1).drop_last() =~= backup.groupbinds@.take(i as int));
        add_names(&mut out, backup.groupbinds[i].discord_roles.as_slice(), Ghost(acc));
        proof {
            assert(acc + texts(backup.groupbinds@[i as int].discord_roles@) =~= base
                + groupbind_role_names(backup.groupbinds@.take(i + 1)));
            acc = acc + texts(backup.groupbinds@[i as int].discord_roles@);
        }
        i = i + 1;
    }
    assert(backup.groupbinds@.take(i as int) =~= backup.groupbinds@);
    let ghost base = acc;
    let mut i: usize = 0;
    while i < backup.custombinds.len()
        invariant
            i <= backup.custombinds@.len(),
            acc == base + custombind_role_names(backup.custombinds@.take(i as int)),
            texts(out@) == dedup(acc),
        decreases backup.custombinds@.len() - i,
    {
        assert(backup.custombinds@.take(i + 1).drop_last() =~= backup.custombinds@.take(i as int));
        add_names(&mut out, backup.custombinds[i].discord_roles.as_slice(), Ghost(acc));
        proof {
            assert(acc + texts(backup.custombinds@[i as int].discord_roles@) =~= base
                + custombind_role_names(backup.custombinds@.take(i + 1)));
            acc = acc + texts(backup.custombinds@[i as int].discord_roles@);
        }
        i = i + 1;
    }
    assert(backup.custombinds@.take(i as int) =~= backup.custombinds@);
    let ghost base = acc;
    let mut i: usize = 0;
    while i < backup.assetbinds.len()
        invariant
            i <= backup.assetbinds@.len(),
            acc == base + assetbind_role_names(backup.assetbinds@.take(i as int)),
            texts(out@) == dedup(acc),
        decreases backup.assetbinds@.len() - i,
    {
        assert(backup.assetbinds@.take(i + 1).drop_last() =~= backup.assetbinds@.take(i as int));
        add_names(&mut out, backup.assetbinds[i].discord_roles.as_slice(), Ghost(acc));
        proof {
            assert(acc + texts(backup.assetbinds@[i as int].discord_roles@) =~= base
                + assetbind_role_names(backup.assetbinds@.take(i + 1)));
            acc = acc + texts(backup.assetbinds@[i as int].discord_roles@);
        }
        i = i + 1;
    }
    assert(backup.assetbinds@.take(i as int) =~= backup.assetbinds@);
    add_names(&mut out, backup.unverified_roles.as_slice(), Ghost(acc));
    proof {
        acc = acc + texts(backup.unverified_roles@);
    }
    add_names(&mut out, backup.verified_roles.as_slice(), Ghost(acc));
    proof {
        acc = acc + texts(backup.verified_roles@);
    }
    let mut bypass: Vec<String> = Vec::new();
    let mut i: usize = 0;
    while i < backup.bypass_roles.len()
        invariant
            i <= backup.bypass_roles@.len(),
            bypass@.len() == i,
            texts(bypass@) == backup.bypass_roles@.take(i as int).map_values(
                |r: BackupBypassRole| r.role@,
            ),
        decreases backup.bypass_roles@.len() - i,
    {
        let ghost before = bypass@;
        bypass.push(backup.bypass_roles[i].role.clone());
        assert(bypass@[i as int]@ == backup.bypass_roles@[i as int].role@);
        assert forall|j: int| 0 <= j < i + 1 implies #[trigger] texts(bypass@)[j]
            == backup.bypass_roles@.take(i + 1)[j].role@ by {
            if j < i {
                assert(bypass@[j] == before[j]);
                assert(texts(before)[j] == backup.bypass_roles@.take(i as int)[j].role@);
            }
        }
        assert(texts(bypass@) =~= backup.bypass_roles@.take(i + 1).map_values(
            |r: BackupBypassRole| r.role@,
        ));
        i = i + 1;
    }
    assert(backup.bypass_roles@.take(i as int) =~= backup.bypass_roles@);
    add_names(&mut out, bypass.as_slice(), Ghost(acc));
    proof {
        acc = acc + texts(bypass@);
        assert(acc =~= mentioned_role_names(*backup));
    }
    out
}

/// The id of the role named `name` among `roles` (pairs of a name and an id).
/// When several share the name, the last of them counts.
pub open spec fn role_named(roles: Seq<(String, RoleId)>, name: Seq<char>) -> Option<RoleId>
    decreases roles.len(),
{
    if roles.len() == 0 {
        None
    } else if roles.last().0@ == name {
        Some(roles.last().1)
    } else {
        role_named(roles.drop_last(), name)
    }
}

/// The role names of the backup, each once and in order, that none of the guild's
/// `roles` carries: the roles that restoring the backup must create.
pub fn roles_to_create(backup: &BackupGuild, roles: &[(String, RoleId)]) -> (names: Vec<String>)
    ensures
        texts(names@) == dedup(mentioned_role_names(*backup)).filter(
            |n: Seq<char>| role_named(roles@, n) is None,
        ),
{
    let all = backup_role_names(backup);
    let ghost wanted = texts(all@);
    let mut out: Vec<String> = Vec::new();
    let mut i: usize = 0;
    while i < all.len()
        invariant
            i <= all@.len(),
            wanted == texts(all@),
            texts(out@) == wanted.take(i as int).filter(|n: Seq<char>| role_named(roles@, n) is None),
        decreases all@.len() - i,
    {
        assert(wanted.take(i + 1).drop_last() =~= wanted.take(i as int));
        assert(wanted.take(i + 1).last() == all@[i as int]@);
        reveal_with_fuel(Seq::<Seq<char>>::filter, 1);
        if find_role(roles, &all[i]).is_none() {
            out.push(all[i].clone());
            assert(texts(out@) =~= texts(out@.drop_last()).push(all@[i as int]@));
        }
        i = i + 1;
    }
    assert(wanted.take(i as int) =~= wanted);
    out
}

/// The id of the role named `name` among `roles`; the last one when several
/// share the name.
pub fn find_role(roles: &[(String, RoleId)], name: &String) -> (r: Option<RoleId>)
    ensures
        r == role_named(roles@, name@),
{
    let mut i: usize = roles.len();
    assert(roles@.take(i as int) =~= roles@);
    while i > 0
        invariant
            i <= roles@.len(),
            role_named(roles@, name@) == role_named(roles@.take(i as int), name@),
        decreases i,
    {
        assert(roles@.take(i as int).drop_last() =~= roles@.take(i - 1));
        if roles[i - 1].0 == *name {
            return Some(roles[i - 1].1);
        }
        i = i - 1;
    }
    None
}

/// The ids of the roles named `names`, in their order; names that no role has
/// are dropped.
pub open spec fn ids_of(names: Seq<String>, roles: Seq<(String, RoleId)>) -> Seq<RoleId>
    decreases names.len(),
{
    if names.len() == 0 {
        Seq::empty()
    } else {
        let rest = ids_of(names.drop_last(), roles);
        match role_named(roles, names.last()@) {
            Some(id) => rest.push(id),
            None => rest,
        }
    }
}

/// The bypass roles by id; those whose role no role has the name of are dropped.
pub open spec fn bypass_ids_of(bypass: Seq<BackupBypassRole>, roles: Seq<(String, RoleId)>) -> Seq<
    BypassRole,
>
    decreases bypass.len(),
{
    if bypass.len() == 0 {
        Seq::empty()
    } else {
        let rest = bypass_ids_of(bypass.drop_last(), roles);
        match role_named(roles, bypass.last().role@) {
            Some(id) => rest.push(BypassRole { role_id: id, kind: bypass.last().kind }),
            None => rest,
        }
    }
}

pub open spec fn restores_rankbind(r: Rankbind, b: BackupRankbind, roles: Seq<(String, RoleId)>) -> bool {
    &&& r.group_id == b.group_id
    &&& r.group_rank_id == b.group_rank_id
    &&& r.roblox_rank_id == b.roblox_rank_id
    &&& r.priority == b.priority
    &&& r.template == b.template
    &&& r.discord_roles@ == ids_of(b.discord_roles@, roles)
}

pub open spec fn restores_groupbind(g: Groupbind, b: BackupGroupbind, roles: Seq<(String, RoleId)>) -> bool {
    &&& g.group_id == b.group_id
    &&& g.priority == b.priority
    &&& g.template == b.template
    &&& g.discord_roles@ == ids_of(b.discord_roles@, roles)
}

pub open spec fn restores_custombind(c: Custombind, b: BackupCustombind, roles: Seq<(String, RoleId)>) -> bool {
    &&& c.custom_bind_id == b.custom_bind_id
    &&& c.code == b.code
    &&& c.priority == b.priority
    &&& c.template == b.template
    &&& c.discord_roles@ == ids_of(b.discord_roles@, roles)
}

pub open spec fn restores_assetbind(a: Assetbind, b: BackupAssetbind, roles: Seq<(String, RoleId)>) -> bool {
    &&& a.asset_id == b.asset_id
    &&& a.asset_type == b.asset_type
    &&& a.priority == b.priority
    &&& a.template == b.template
    &&& a.discord_roles@ == ids_of(b.discord_roles@, roles)
}

fn role_ids(names: &[String], roles: &[(String, RoleId)]) -> (r: Vec<RoleId>)
    ensures
        r@ == ids_of(names@, roles@),
{
    let mut out: Vec<RoleId> = Vec::new();
    let mut i: usize = 0;
    while i < names.len()
        invariant
            i <= names@.len(),
            out@ == ids_of(names@.take(i as int), roles@),
        decreases names@.len() - i,
    {
        assert(names@.take(i + 1).drop_last() =~= names@.take(i as int));
        match find_role(roles, &names[i]) {
            Some(id) => out.push(id),
            None => {},
        }
        i = i + 1;
    }
    assert(names@.take(i as int) =~= names@);
    out
}

fn restore_bypass_roles(bypass: &[BackupBypassRole], roles: &[(String, RoleId)]) -> (r: Vec<BypassRole>)
    ensures
        r@ == bypass_ids_of(bypass@, roles@),
{
    let mut out: Vec<BypassRole> = Vec::new();
    let mut i: usize = 0;
    while i < bypass.len()
        invariant
            i <= bypass@.len(),
            out@ == bypass_ids_of(bypass@.take(i as int), roles@),
        decreases bypass@.len() - i,
    {
        assert(bypass@.take(i + 1).drop_last() =~= bypass@.take(i as int));
        match find_role(roles, &bypass[i].role) {
            Some(id) => out.push(BypassRole { role_id: id, kind: bypass[i].kind }),
            None => {},
        }
        i = i + 1;
    }
    assert(bypass@.take(i as int) =~= bypass@);
    out
}

fn restore_rankbinds(binds: &[BackupRankbind], roles: &[(String, RoleId)]) -> (r: Vec<Rankbind>)
    ensures
        r@.len() == binds@.len(),
        forall|i: int| 0 <= i < binds@.len() ==> restores_rankbind(#[trigger] r@[i], binds@[i], roles@),
{
    let mut out: Vec<Rankbind> = Vec::new();
    let mut i: usize = 0;
    while i < binds.len()
        invariant
            i <= binds@.len(),
            out@.len() == i,
            forall|j: int| 0 <= j < i ==> restores_rankbind(#[trigger] out@[j], binds@[j], roles@),
        decreases binds@.len() - i,
    {
        let b = &binds[i];
        out.push(Rankbind {
            group_id: b.group_id,
            discord_roles: role_ids(b.discord_roles.as_slice(), roles),
            group_rank_id: b.group_rank_id,
            roblox_rank_id: b.roblox_rank_id.clone(),
            priority: b.priority,
            template: b.template.clone(),
        });
        i = i + 1;
    }
    out
}

fn restore_groupbinds(binds: &[BackupGroupbind], roles: &[(String, RoleId)]) -> (r: Vec<Groupbind>)
    ensures
        r@.len() == binds@.len(),
        forall|i: int| 0 <= i < binds@.len() ==> restores_groupbind(#[trigger] r@[i], binds@[i], roles@),
{
    let mut out: Vec<Groupbind> = Vec::new();
    let mut i: usize = 0;
    while i < binds.len()
        invariant
            i <= binds@.len(),
            out@.len() == i,
            forall|j: int| 0 <= j < i ==> restores_groupbind(#[trigger] out@[j], binds@[j], roles@),
        decreases binds@.len() - i,
    {
        let b = &binds[i];
        out.push(Groupbind {
            group_id: b.group_id,
            discord_roles: role_ids(b.discord_roles.as_slice(), roles),
            priority: b.priority,
            template: b.template.clone(),
        });
        i = i + 1;
    }
    out
}

fn restore_custombinds(binds: &[BackupCustombind], roles: &[(String, RoleId)]) -> (r: Vec<Custombind>)
    ensures
        r@.len() == binds@.len(),
        forall|i: int| 0 <= i < binds@.len() ==> restores_custombind(#[trigger] r@[i], binds@[i], roles@),
{
    let mut out: Vec<Custombind> = Vec::new();
    let mut i: usize = 0;
    while i < binds.len()
        invariant
            i <= binds@.len(),
            out@.len() == i,
            forall|j: int| 0 <= j < i ==> restores_custombind(#[trigger] out@[j], binds@[j], roles@),
        decreases binds@.len() - i,
    {
        let b = &binds[i];
        out.push(Custombind {
            custom_bind_id: b.custom_bind_id,
            discord_roles: role_ids(b.discord_roles.as_slice(), roles),
            code: b.code.clone(),
            priority: b.priority,
            template: b.template.clone(),
        });
        i = i + 1;
    }
    out
}

fn restore_assetbinds(binds: &[BackupAssetbind], roles: &[(String, RoleId)]) -> (r: Vec<Assetbind>)
    ensures
        r@.len() == binds@.len(),
        forall|i: int| 0 <= i < binds@.len() ==> restores_assetbind(#[trigger] r@[i], binds@[i], roles@),
{
    let mut out: Vec<Assetbind> = Vec::new();
    let mut i: usize = 0;
    while i < binds.len()
        invariant
            i <= binds@.len(),
            out@.len() == i,
            forall|j: int| 0 <= j < i ==> restores_assetbind(#[trigger] out@[j], binds@[j], roles@),
        decreases binds@.len() - i,
    {
        let b = &binds[i];
        out.push(Assetbind {
            asset_id: b.asset_id,
            asset_type: b.asset_type,
            discord_roles: role_ids(b.discord_roles.as_slice(), roles),
            priority: b.priority,
            template: b.template.clone(),
        });
        i = i + 1;
    }
    out
}

/// The guild with the saved backup (`None` when the author has no backup of
/// that name) restored over its configuration. `roles` pairs the name of each
/// role the backup mentions with the id of the guild's role of that name (an
/// existing one, or one created for it); roles are looked up by name and names
/// without a role are dropped. What a backup does not hold (the tier, the
/// registered groups, the sticky roles, the log channel) stays as it was.
pub fn restore_backup(guild: PartialRoGuild, backup: Option<BackupGuildRow>, roles: &[(String, RoleId)]) -> (r:
    Result<PartialRoGuild, BackupError>)
    ensures
        backup is None <==> r is Err,
        r is Err ==> r matches Err(BackupError::NotFound),
        r matches Ok(g) ==> backup matches Some(row) && {
            let b = row.data;
            &&& g.guild_id == guild.guild_id
            &&& g.kind == guild.kind
            &&& g.registered_groups == guild.registered_groups
            &&& g.sticky_roles == guild.sticky_roles
            &&& g.log_channel == guild.log_channel
            &&& g.bypass_roles@ == bypass_ids_of(b.bypass_roles@, roles@)
            &&& g.unverified_roles@ == ids_of(b.unverified_roles@, roles@)
            &&& g.verified_roles@ == ids_of(b.verified_roles@, roles@)
            &&& g.rankbinds@.len() == b.rankbinds@.len()
            &&& forall|i: int|
                0 <= i < b.rankbinds@.len() ==> restores_rankbind(
                    #[trigger] g.rankbinds@[i],
                    b.rankbinds@[i],
                    roles@,
                )
            &&& g.groupbinds@.len() == b.groupbinds@.len()
            &&& forall|i: int|
                0 <= i < b.groupbinds@.len() ==> restores_groupbind(
                    #[trigger] g.groupbinds@[i],
                    b.groupbinds@[i],
                    roles@,
                )
            &&& g.custombinds@.len() == b.custombinds@.len()
            &&& forall|i: int|
                0 <= i < b.custombinds@.len() ==> restores_custombind(
                    #[trigger] g.custombinds@[i],
                    b.custombinds@[i],
                    roles@,
                )
            &&& g.assetbinds@.len() == b.assetbinds@.len()
            &&& forall|i: int|
                0 <= i < b.assetbinds@.len() ==> restores_assetbind(
                    #[trigger] g.assetbinds@[i],
                    b.assetbinds@[i],
                    roles@,
                )
            &&& g.xp_binds == b.xp_binds
            &&& g.deny_lists == b.deny_lists
            &&& g.event_types == b.event_types
            &&& g.default_template == Some(b.default_template)
            &&& g.update_on_join == Some(b.update_on_join)
            &&& g.auto_detection == Some(b.auto_detection)
            &&& g.sync_xp_on_setrank == Some(b.sync_xp_on_setrank)
        },
{
    let backup = match backup {
        Some(row) => row.data,
        None => {
            return Err(BackupError::NotFound);
        },
    };
    let bypass_roles = restore_bypass_roles(backup.bypass_roles.as_slice(), roles);
    let unverified_roles = role_ids(backup.unverified_roles.as_slice(), roles);
    let verified_roles = role_ids(backup.verified_roles.as_slice(), roles);
    let rankbinds = restore_rankbinds(backup.rankbinds.as_slice(), roles);
    let groupbinds = restore_groupbinds(backup.groupbinds.as_slice(), roles);
    let custombinds = restore_custombinds(backup.custombinds.as_slice(), roles);
    let assetbinds = restore_assetbinds(backup.assetbinds.as_slice(), roles);
    Ok(PartialRoGuild {
        guild_id: guild.guild_id,
        kind: guild.kind,
        bypass_roles,
        unverified_roles,
        verified_roles,
        rankbinds,
        groupbinds,
        assetbinds,
        custombinds,
        deny_lists: backup.deny_lists,
        default_template: Some(backup.default_template),
        update_on_join: Some(backup.update_on_join),
        event_types: backup.event_types,
        auto_detection: Some(backup.auto_detection),
        xp_binds: backup.xp_binds,
        sync_xp_on_setrank: Some(backup.sync_xp_on_setrank),
        registered_groups: guild.registered_groups,
        sticky_roles: guild.sticky_roles,
        log_channel: guild.log_channel,
    })
}

/// Restoring the roles that a backup recorded by name, in a guild where each
/// of them is found again by its name, gives back the same roles in the same
/// order.
pub proof fn lemma_roles_round_trip(ids: Seq<RoleId>, names: Map<u64, String>, roles: Seq<(String, RoleId)>)
    requires
        forall|i: int|
            0 <= i < ids.len() ==> names.contains_key(#[trigger] ids[i].0) && role_named(roles, names[ids[i].0]@)
                == Some(ids[i]),
    ensures
        ids_of(crate::backups::new::names_of(ids, names), roles) == ids,
    decreases ids.len(),
{
    if ids.len() > 0 {
        let rest = ids.drop_last();
        assert forall|i: int| 0 <= i < rest.len() implies names.contains_key(#[trigger] rest[i].0) && role_named(
            roles,
            names[rest[i].0]@,
        ) == Some(rest[i]) by {
            assert(rest[i] == ids[i]);
        }
        lemma_roles_round_trip(rest, names, roles);
        let last = ids.last();
        assert(names.contains_key(ids[ids.len() - 1].0));
        let n = crate::backups::new::names_of(rest, names);
        assert(crate::backups::new::names_of(ids, names) == n.push(names[last.0]));
        assert(n.push(names[last.0]).drop_last() =~= n);
        assert(ids_of(n.push(names[last.0]), roles) == ids_of(n, roles).push(last));
        assert(rest.push(last) =~= ids);
    }
}

/// Backing up a guild's bypass roles and restoring them in a guild where each
/// of their roles is found again by its name gives back the same bypass roles,
/// with the same kinds, in the same order.
pub proof fn lemma_bypass_round_trip(
    bypass: Seq<BypassRole>,
    names: Map<u64, String>,
    backup: Seq<BackupBypassRole>,
    roles: Seq<(String, RoleId)>,
)
    requires
        backup.map_values(|r: BackupBypassRole| (r.role@, r.kind)) == crate::backups::new::bypass_names_of(
            bypass,
            names,
        ),
        forall|i: int|
            0 <= i < bypass.len() ==> names.contains_key(#[trigger] bypass[i].role_id.0) && role_named(
                roles,
                names[bypass[i].role_id.0]@,
            ) == Some(bypass[i].role_id),
    ensures
        bypass_ids_of(backup, roles) == bypass,
    decreases bypass.len(),
{
    let named = |r: BackupBypassRole| (r.role@, r.kind);
    if bypass.len() == 0 {
        assert(backup.map_values(named).len() == 0);
        assert(backup =~= Seq::<BackupBypassRole>::empty());
    } else {
        let rest = bypass.drop_last();
        let last = bypass.last();
        assert(names.contains_key(bypass[bypass.len() - 1].role_id.0));
        assert forall|i: int| 0 <= i < rest.len() implies names.contains_key(#[trigger] rest[i].role_id.0)
            && role_named(roles, names[rest[i].role_id.0]@) == Some(rest[i].role_id) by {
            assert(rest[i] == bypass[i]);
        }
        let before = crate::backups::new::bypass_names_of(rest, names);
        assert(crate::backups::new::bypass_names_of(bypass, names) == before.push((names[last.role_id.0]@, last.kind)));
        assert(backup.len() == before.len() + 1);
        let b0 = backup.drop_last();
        assert(b0.map_values(named) =~= before) by {
            assert forall|i: int| 0 <= i < before.len() implies #[trigger] b0.map_values(named)[i] == before[i] by {
                assert(backup.map_values(named)[i] == before.push((names[last.role_id.0]@, last.kind))[i]);
            }
        }
        lemma_bypass_round_trip(rest, names, b0, roles);
        assert(backup.map_values(named)[backup.len() - 1] == (names[last.role_id.0]@, last.kind));
        assert(backup.last().role@ == names[last.role_id.0]@);
        assert(backup.last().kind == last.kind);
        assert(bypass_ids_of(backup, roles) == rest.push(BypassRole { role_id: last.role_id, kind: last.kind }));
        assert(rest.push(last) =~= bypass);
    }
}

/// Backing up a guild's binds and restoring them in a guild where each of
/// their roles is found again by its name gives back each bind as it was:
/// same group, ranks, asset, code, priority, template and roles in order.
pub proof fn lemma_binds_round_trip(
    names: Map<u64, String>,
    roles: Seq<(String, RoleId)>,
    r: Rankbind,
    rb: BackupRankbind,
    r2: Rankbind,
    g: Groupbind,
    gb: BackupGroupbind,
    g2: Groupbind,
    c: Custombind,
    cb: BackupCustombind,
    c2: Custombind,
    a: Assetbind,
    ab: BackupAssetbind,
    a2: Assetbind,
)
    requires
        forall|i: int|
            0 <= i < r.discord_roles@.len() ==> names.contains_key(#[trigger] r.discord_roles@[i].0) && role_named(
                roles,
                names[r.discord_roles@[i].0]@,
            ) == Some(r.discord_roles@[i]),
        forall|i: int|
            0 <= i < g.discord_roles@.len() ==> names.contains_key(#[trigger] g.discord_roles@[i].0) && role_named(
                roles,
                names[g.discord_roles@[i].0]@,
            ) == Some(g.discord_roles@[i]),
        forall|i: int|
            0 <= i < c.discord_roles@.len() ==> names.contains_key(#[trigger] c.discord_roles@[i].0) && role_named(
                roles,
                names[c.discord_roles@[i].0]@,
            ) == Some(c.discord_roles@[i]),
        forall|i: int|
            0 <= i < a.discord_roles@.len() ==> names.contains_key(#[trigger] a.discord_roles@[i].0) && role_named(
                roles,
                names[a.discord_roles@[i].0]@,
            ) == Some(a.discord_roles@[i]),
        crate::backups::new::backs_up_rankbind(rb, r, names),
        restores_rankbind(r2, rb, roles),
        crate::backups::new::backs_up_groupbind(gb, g, names),
        restores_groupbind(g2, gb, roles),
        crate::backups::new::backs_up_custombind(cb, c, names),
        restores_custombind(c2, cb, roles),
        crate::backups::new::backs_up_assetbind(ab, a, names),
        restores_assetbind(a2, ab, roles),
    ensures
        r2.group_id == r.group_id && r2.group_rank_id == r.group_rank_id && r2.roblox_rank_id@ == r.roblox_rank_id@
            && r2.priority == r.priority && r2.template.0@ == r.template.0@ && r2.discord_roles@ == r.discord_roles@,
        g2.group_id == g.group_id && g2.priority == g.priority && g2.template.0@ == g.template.0@
            && g2.discord_roles@ == g.discord_roles@,
        c2.custom_bind_id == c.custom_bind_id && c2.code@ == c.code@ && c2.priority == c.priority
            && c2.template.0@ == c.template.0@ && c2.discord_roles@ == c.discord_roles@,
        a2.asset_id == a.asset_id && a2.asset_type == a.asset_type && a2.priority == a.priority
            && a2.template.0@ == a.template.0@ && a2.discord_roles@ == a.discord_roles@,
{
    lemma_roles_round_trip(r.discord_roles@, names, roles);
    lemma_roles_round_trip(g.discord_roles@, names, roles);
    lemma_roles_round_trip(c.discord_roles@, names, roles);
    lemma_roles_round_trip(a.discord_roles@, names, roles);
}

} // verus!
