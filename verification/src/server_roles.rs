//! Which of the roles asked for a bind the guild can give.
use std::collections::HashMap;
use vstd::prelude::*;

use crate::id::RoleId;
use crate::models::discord::CachedRole;

verus! {

/// The guild has the role and no integration manages it.
pub open spec fn is_assignable(server_roles: Map<u64, CachedRole>, role: RoleId) -> bool {
    server_roles.contains_key(role.0) && !server_roles[role.0].managed
}

/// The guild has the role but an integration manages it.
pub open spec fn is_managed(server_roles: Map<u64, CachedRole>, role: RoleId) -> bool {
    server_roles.contains_key(role.0) && server_roles[role.0].managed
}

/// Splits the roles asked for a bind into those that it will give and those
/// that integrations manage; roles the guild does not have are dropped.
/// Both lists keep the order of `roles`.
pub fn partition_roles(roles: &[RoleId], server_roles: &HashMap<u64, CachedRole>) -> (r: (
    Vec<RoleId>,
    Vec<RoleId>,
))
    ensures
        r.0@ == roles@.filter(|x: RoleId| is_assignable(server_roles@, x)),
        r.1@ == roles@.filter(|x: RoleId| is_managed(server_roles@, x)),
{
    broadcast use vstd::std_specs::hash::group_hash_axioms;

    let mut roles_to_add: Vec<RoleId> = Vec::new();
    let mut ignored_roles: Vec<RoleId> = Vec::new();
    let mut i: usize = 0;
    while i < roles.len()
        invariant
            i <= roles@.len(),
            roles_to_add@ == roles@.take(i as int).filter(|x: RoleId| is_assignable(server_roles@, x)),
            ignored_roles@ == roles@.take(i as int).filter(|x: RoleId| is_managed(server_roles@, x)),
        decreases roles@.len() - i,
    {
        let role = roles[i];
        assert(roles@.take(i + 1).drop_last() =~= roles@.take(i as int));
        assert(roles@.take(i + 1).last() == role);
        reveal_with_fuel(Seq::<RoleId>::filter, 1);
        match server_roles.get(&role.0) {
            Some(server_role) => {
                if server_role.managed {
                    ignored_roles.push(role);
                } else {
                    roles_to_add.push(role);
                }
            },
            None => {},
        }
        i = i + 1;
    }
    assert(roles@.take(i as int) =~= roles@);
    (roles_to_add, ignored_roles)
}

} // verus!
