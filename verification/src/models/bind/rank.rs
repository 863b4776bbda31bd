use vstd::prelude::*;

use super::Template;
use crate::id::RoleId;
use crate::roblox::id::GroupId;

verus! {

/// Gives roles to the members holding one rank of a Roblox group.
#[derive(Debug)]
pub struct Rankbind {
    /// The ID of the Roblox Group
    pub group_id: GroupId,
    /// The Discord Roles bound to this bind
    pub discord_roles: Vec<RoleId>,
    /// The ID (0-255) of the rank
    pub group_rank_id: u32,
    /// The global rank ID
    pub roblox_rank_id: String,
    /// The priority of the bind. Used for determining the nickname
    pub priority: i32,
    /// The format of the nickname
    pub template: Template,
}

impl Rankbind {
    pub fn discord_roles(&self) -> (r: &[RoleId])
        ensures
            r@ == self.discord_roles@,
    {
        self.discord_roles.as_slice()
    }
}


impl Clone for Rankbind {
    fn clone(&self) -> (r: Self)
        ensures
            r.group_id == self.group_id,
            r.discord_roles@ == self.discord_roles@,
            r.group_rank_id == self.group_rank_id,
            r.roblox_rank_id == self.roblox_rank_id,
            r.priority == self.priority,
            r.template == self.template,
    {
        Rankbind {
            group_id: self.group_id,
            discord_roles: self.discord_roles.clone(),
            group_rank_id: self.group_rank_id,
            roblox_rank_id: self.roblox_rank_id.clone(),
            priority: self.priority,
            template: self.template.clone(),
        }
    }
}

} // verus!
