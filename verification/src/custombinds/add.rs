use std::collections::HashMap;
use vstd::prelude::*;

use super::parser::{parser, spec_parser};
use crate::error::RoError;
use crate::id::RoleId;
use crate::models::bind::{Custombind, Template};
use crate::models::discord::CachedRole;
use crate::server_roles::{is_assignable, is_managed, partition_roles};
use crate::text::push_str;

verus! {

#[derive(Debug)]
pub struct AddCustombind {
    pub bind: Custombind,
    pub ignored_roles: Vec<RoleId>,
}

pub enum AddCustombindError {
    /// The code does not parse; the text says why.
    Code(String),
    Other(RoError),
}

#[derive(Debug)]
pub struct CustombindArguments {
    pub code: String,
    pub template: Template,
    pub priority: Option<i32>,
    pub discord_roles: Vec<RoleId>,
}

/// The largest id among `binds`, or 0 when there is none.
pub open spec fn max_custombind_id(binds: Seq<Custombind>) -> u32
    decreases binds.len(),
{
    if binds.len() == 0 {
        0
    } else {
        let m = max_custombind_id(binds.drop_last());
        if binds.last().custom_bind_id > m {
            binds.last().custom_bind_id
        } else {
            m
        }
    }
}

pub proof fn lemma_max_custombind_id(binds: Seq<Custombind>)
    ensures
        forall|i: int| 0 <= i < binds.len() ==> binds[i].custom_bind_id <= max_custombind_id(binds),
        binds.len() > 0 ==> exists|i: int|
            0 <= i < binds.len() && binds[i].custom_bind_id == max_custombind_id(binds),
    decreases binds.len(),
{
    if binds.len() > 0 {
        lemma_max_custombind_id(binds.drop_last());
        assert forall|i: int| 0 <= i < binds.len() implies binds[i].custom_bind_id
            <= max_custombind_id(binds) by {
            if i < binds.len() - 1 {
                assert(binds.drop_last()[i] == binds[i]);
            }
        }
        if binds.drop_last().len() > 0 && max_custombind_id(binds) == max_custombind_id(
            binds.drop_last(),
        ) {
            let i = choose|i: int|
                0 <= i < binds.drop_last().len() && binds.drop_last()[i].custom_bind_id
                    == max_custombind_id(binds.drop_last());
            assert(binds[i] == binds.drop_last()[i]);
        } else {
            assert(binds[binds.len() - 1].custom_bind_id == max_custombind_id(binds));
        }
    }
}

fn max_id(binds: &[Custombind]) -> (m: u32)
    ensures
        m == max_custombind_id(binds@),
{
    let mut m: u32 = 0;
    let mut i: usize = 0;
    while i < binds.len()
        invariant
            i <= binds@.len(),
            m == max_custombind_id(binds@.take(i as int)),
        decreases binds@.len() - i,
    {
        assert(binds@.take(i + 1).drop_last() =~= binds@.take(i as int));
        if binds[i].custom_bind_id > m {
            m = binds[i].custom_bind_id;
        }
        i = i + 1;
    }
    assert(binds@.take(i as int) =~= binds@);
    m
}

/// Builds the custom bind that adding one stores: its id is one more than
/// the largest existing id (1 when there is none), and it gives the requested
/// roles that the guild has and no integration manages. Code that does not
/// parse is refused.
pub fn add_custombind(
    existing_custombinds: &[Custombind],
    server_roles: &HashMap<u64, CachedRole>,
    args: CustombindArguments,
) -> (r: Result<AddCustombind, AddCustombindError>)
    requires
        max_custombind_id(existing_custombinds@) < u32::MAX,
    ensures
        spec_parser(args.code@) is None ==> r matches Err(AddCustombindError::Code(_)),
        spec_parser(args.code@) is Some ==> (r matches Ok(added) && {
            &&& added.bind.custom_bind_id == max_custombind_id(existing_custombinds@) + 1
            &&& added.bind.code == args.code
            &&& added.bind.discord_roles@ == args.discord_roles@.filter(
                |x: RoleId| is_assignable(server_roles@, x),
            )
            &&& added.bind.priority == match args.priority {
                Some(p) => p,
                None => 0i32,
            }
            &&& added.bind.template == args.template
            &&& added.ignored_roles@ == args.discord_roles@.filter(
                |x: RoleId| is_managed(server_roles@, x),
            )
        }),
        r matches Ok(added) ==> forall|i: int|
            0 <= i < existing_custombinds@.len() ==> existing_custombinds@[i].custom_bind_id
                < added.bind.custom_bind_id,
{
    proof {
        lemma_max_custombind_id(existing_custombinds@);
    }
    let (roles_to_add, ignored_roles) = partition_roles(args.discord_roles.as_slice(), server_roles);
    if let Err(err) = parser(args.code.as_str()) {
        let mut message = String::new();
        push_str(&mut message, err.description());
        return Err(AddCustombindError::Code(message));
    }
    let id = max_id(existing_custombinds) + 1;
    let bind = Custombind {
        custom_bind_id: id,
        code: args.code,
        discord_roles: roles_to_add,
        priority: match args.priority {
            Some(p) => p,
            None => 0,
        },
        template: args.template,
    };
    Ok(AddCustombind { bind, ignored_roles })
}

} // verus!
