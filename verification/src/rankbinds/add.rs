use std::collections::HashMap;
use vstd::prelude::*;

use crate::error::RoError;
use crate::id::RoleId;
use crate::models::bind::{Rankbind, Template};
use crate::models::discord::CachedRole;
use crate::roblox::group::GroupRole;
use crate::roblox::id::GroupId;
use crate::server_roles::{is_assignable, is_managed, partition_roles};

verus! {

#[derive(Debug)]
pub struct AddRankbind {
    pub bind: Rankbind,
    pub ignored_roles: Vec<RoleId>,
    pub modified: bool,
}

pub enum AddRankbindError {
    InvalidGroup,
    InvalidRank,
    Generic(RoError),
}

impl From<RoError> for AddRankbindError {
    fn from(err: RoError) -> (r: Self) {
        AddRankbindError::Generic(err)
    }
}

impl vstd::std_specs::convert::FromSpecImpl<RoError> for AddRankbindError {
    open spec fn obeys_from_spec() -> bool {
        true
    }

    open spec fn from_spec(err: RoError) -> Self {
        AddRankbindError::Generic(err)
    }
}

#[derive(Debug)]
pub struct RankbindArguments {
    pub group_id: GroupId,
    pub rank_id: u32,
    pub template: Template,
    pub priority: Option<i32>,
    pub discord_roles: Vec<RoleId>,
}

/// The first rank of `ranks` with rank number `rank`, if any.
pub open spec fn first_rank(ranks: Seq<GroupRole>, rank: u32) -> Option<int> {
    if exists|i: int| 0 <= i < ranks.len() && ranks[i].rank == rank {
        Some(
            choose|i: int|
                0 <= i < ranks.len() && ranks[i].rank == rank && forall|j: int|
                    0 <= j < i ==> ranks[j].rank != rank,
        )
    } else {
        None
    }
}

/// The first position of a bind with global rank id `id`, if any.
pub open spec fn rankbind_position(binds: Seq<Rankbind>, id: Seq<char>) -> Option<int> {
    if exists|i: int| 0 <= i < binds.len() && binds[i].roblox_rank_id@ == id {
        Some(
            choose|i: int|
                0 <= i < binds.len() && binds[i].roblox_rank_id@ == id && forall|j: int|
                    0 <= j < i ==> binds[j].roblox_rank_id@ != id,
        )
    } else {
        None
    }
}

fn find_rank(ranks: &[GroupRole], rank: u32) -> (r: Option<usize>)
    ensures
        match first_rank(ranks@, rank) {
            Some(i) => r == Some(i as usize) && 0 <= i < ranks@.len() && ranks@[i].rank == rank,
            None => r is None,
        },
{
    let mut i: usize = 0;
    while i < ranks.len()
        invariant
            i <= ranks@.len(),
            forall|j: int| 0 <= j < i ==> ranks@[j].rank != rank,
        decreases ranks@.len() - i,
    {
        if ranks[i].rank == rank {
            let ghost k = first_rank(ranks@, rank)->0;
            assert(0 <= k < ranks@.len() && ranks@[k].rank == rank);
            assert(k == i) by {
                if k < i {
                } else if k > i {
                    assert(ranks@[i as int].rank == rank);
                }
            }
            return Some(i);
        }
        i = i + 1;
    }
    None
}

fn find_rankbind(binds: &[Rankbind], id: &String) -> (r: Option<usize>)
    ensures
        match rankbind_position(binds@, id@) {
            Some(i) => r == Some(i as usize) && 0 <= i < binds.len(),
            None => r is None,
        },
{
    let mut i: usize = 0;
    while i < binds.len()
        invariant
            i <= binds@.len(),
            forall|j: int| 0 <= j < i ==> binds@[j].roblox_rank_id@ != id@,
        decreases binds@.len() - i,
    {
        if binds[i].roblox_rank_id == *id {
            let ghost k = rankbind_position(binds@, id@)->0;
            assert(k == i) by {
                if k > i {
                    assert(binds@[i as int].roblox_rank_id@ == id@);
                }
            }
            return Some(i);
        }
        i = i + 1;
    }
    None
}

/// Builds the rank bind that adding a rank bind stores, and where.
/// `ranks` are the ranks Roblox lists for the group (`None` when the group
/// does not exist). The bind is for the first rank with the requested rank
/// number and takes its global id; it gives the requested roles that the
/// guild has and no integration manages. It replaces the first existing
/// bind with the same global rank id (`modified`), or goes at the end.
pub fn add_rankbind(
    ranks: Option<Vec<GroupRole>>,
    existing_rankbinds: &[Rankbind],
    server_roles: &HashMap<u64, CachedRole>,
    args: RankbindArguments,
) -> (r: Result<(AddRankbind, usize), AddRankbindError>)
    ensures
        ranks is None ==> r matches Err(AddRankbindError::InvalidGroup),
        ranks matches Some(rs) ==> match first_rank(rs@, args.rank_id) {
            None => r matches Err(AddRankbindError::InvalidRank),
            Some(k) => (r matches Ok((added, slot)) && {
                &&& added.bind.group_id == args.group_id
                &&& added.bind.discord_roles@ == args.discord_roles@.filter(
                    |x: RoleId| is_assignable(server_roles@, x),
                )
                &&& added.bind.group_rank_id == args.rank_id
                &&& added.bind.roblox_rank_id@ == rs@[k].id@
                &&& added.bind.priority == match args.priority {
                    Some(p) => p,
                    None => 0i32,
                }
                &&& added.bind.template == args.template
                &&& added.ignored_roles@ == args.discord_roles@.filter(
                    |x: RoleId| is_managed(server_roles@, x),
                )
                &&& match rankbind_position(existing_rankbinds@, rs@[k].id@) {
                    Some(i) => added.modified && slot == i,
                    None => !added.modified && slot == existing_rankbinds@.len(),
                }
            }),
        },
{
    let ranks = match ranks {
        Some(ranks) => ranks,
        None => {
            return Err(AddRankbindError::InvalidGroup);
        },
    };
    let k = match find_rank(ranks.as_slice(), args.rank_id) {
        Some(k) => k,
        None => {
            return Err(AddRankbindError::InvalidRank);
        },
    };
    let (roles_to_add, ignored_roles) = partition_roles(args.discord_roles.as_slice(), server_roles);
    let bind = Rankbind {
        group_id: args.group_id,
        discord_roles: roles_to_add,
        group_rank_id: args.rank_id,
        roblox_rank_id: ranks[k].id.clone(),
        priority: match args.priority {
            Some(p) => p,
            None => 0,
        },
        template: args.template,
    };
    assert(bind.roblox_rank_id@ == ranks@[k as int].id@);
    let idx = find_rankbind(existing_rankbinds, &bind.roblox_rank_id);
    let slot = match idx {
        Some(i) => i,
        None => existing_rankbinds.len(),
    };
    Ok((AddRankbind { bind, ignored_roles, modified: idx.is_some() }, slot))
}

} // verus!
