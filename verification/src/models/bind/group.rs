use vstd::prelude::*;

use super::Template;
use crate::id::RoleId;
use crate::roblox::id::GroupId;

verus! {

/// Gives roles to every member of a Roblox group.
#[derive(Debug)]
pub struct Groupbind {
    /// The Id of the Roblox Group
    pub group_id: GroupId,
    /// The discord roles bound to the group
    pub discord_roles: Vec<RoleId>,
    /// The number that decides whether this bind is chosen for the nickname
    pub priority: i32,
    /// The format of the nickname if this bind is chosen
    pub template: Template,
}

impl Groupbind {
    pub fn discord_roles(&self) -> (r: &[RoleId])
        ensures
            r@ == self.discord_roles@,
    {
        self.discord_roles.as_slice()
    }
}


impl Clone for Groupbind {
    fn clone(&self) -> (r: Self)
        ensures
            r.group_id == self.group_id,
            r.discord_roles@ == self.discord_roles@,
            r.priority == self.priority,
            r.template == self.template,
    {
        Groupbind {
            group_id: self.group_id,
            discord_roles: self.discord_roles.clone(),
            priority: self.priority,
            template: self.template.clone(),
        }
    }
}

} // verus!
