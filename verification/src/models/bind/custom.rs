use vstd::prelude::*;

use super::Template;
use crate::id::RoleId;

verus! {

/// Gives roles to members for whom a piece of custom bind code holds.
#[derive(Debug)]
pub struct Custombind {
    /// The ID of the Custom Bind
    pub custom_bind_id: u32,
    /// The discord roles bound to the custombind
    pub discord_roles: Vec<RoleId>,
    /// The code of the bind
    pub code: String,
    /// The number that decides whether this bind is chosen for the nickname
    pub priority: i32,
    /// The format of the nickname if this bind is chosen
    pub template: Template,
}

impl Custombind {
    pub fn discord_roles(&self) -> (r: &[RoleId])
        ensures
            r@ == self.discord_roles@,
    {
        self.discord_roles.as_slice()
    }

    /// Whether the bind applies on its own; code is evaluated by the member
    /// update instead, so this is always `false`.
    pub fn evaluate(&self) -> (b: bool)
        ensures
            !b,
    {
        false
    }
}


impl Clone for Custombind {
    fn clone(&self) -> (r: Self)
        ensures
            r.custom_bind_id == self.custom_bind_id,
            r.discord_roles@ == self.discord_roles@,
            r.code == self.code,
            r.priority == self.priority,
            r.template == self.template,
    {
        Custombind {
            custom_bind_id: self.custom_bind_id,
            discord_roles: self.discord_roles.clone(),
            code: self.code.clone(),
            priority: self.priority,
            template: self.template.clone(),
        }
    }
}

} // verus!
