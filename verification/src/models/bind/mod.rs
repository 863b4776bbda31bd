//! Binds: the rules that turn Roblox facts into Discord roles and nicknames.
use vstd::prelude::*;

mod asset;
mod custom;
mod group;
mod rank;
mod template;
mod xp;

pub use asset::{AssetType, Assetbind};
pub use custom::Custombind;
pub use group::Groupbind;
pub use rank::Rankbind;
pub use template::{closing_brace, gaps, hole_value, holes, placeholder_value, render, weave, Template};
pub(crate) use template::pattern_matches;
pub use xp::XPBind;

use crate::id::RoleId;

verus! {

/// A bind of any kind.
pub enum Bind {
    Rank(Rankbind),
    Group(Groupbind),
    Asset(Assetbind),
    Custom(Custombind),
}

#[derive(Clone, Copy, Debug, PartialEq, Eq, Structural)]
pub enum BindType {
    Rank,
    Group,
    Custom,
    Asset,
    XP,
}

impl Bind {
    pub open spec fn roles_of(self) -> Seq<RoleId> {
        match self {
            Bind::Rank(r) => r.discord_roles@,
            Bind::Group(g) => g.discord_roles@,
            Bind::Asset(a) => a.discord_roles@,
            Bind::Custom(c) => c.discord_roles@,
        }
    }

    pub open spec fn priority_of(self) -> i32 {
        match self {
            Bind::Rank(r) => r.priority,
            Bind::Group(g) => g.priority,
            Bind::Asset(a) => a.priority,
            Bind::Custom(c) => c.priority,
        }
    }

    pub open spec fn template_of(self) -> Template {
        match self {
            Bind::Rank(r) => r.template,
            Bind::Group(g) => g.template,
            Bind::Asset(a) => a.template,
            Bind::Custom(c) => c.template,
        }
    }

    /// The roles the bind gives.
    pub fn discord_roles(&self) -> (r: &[RoleId])
        ensures
            r@ == self.roles_of(),
    {
        match self {
            Bind::Rank(r) => r.discord_roles(),
            Bind::Group(g) => g.discord_roles(),
            Bind::Asset(a) => a.discord_roles(),
            Bind::Custom(c) => c.discord_roles(),
        }
    }

    /// The bind's nickname priority.
    pub fn priority(&self) -> (p: i32)
        ensures
            p == self.priority_of(),
    {
        match self {
            Bind::Rank(r) => r.priority,
            Bind::Group(g) => g.priority,
            Bind::Asset(a) => a.priority,
            Bind::Custom(c) => c.priority,
        }
    }

    /// The bind's nickname template.
    pub fn template(&self) -> (t: &Template)
        ensures
            *t == self.template_of(),
    {
        match self {
            Bind::Rank(r) => &r.template,
            Bind::Group(g) => &g.template,
            Bind::Asset(a) => &a.template,
            Bind::Custom(c) => &c.template,
        }
    }
}

impl BindType {
    /// The name of the bind type (its `Display` form).
    pub fn name(&self) -> (s: &'static str)
        ensures
            s@ == match self {
                BindType::Asset => "Asset"@,
                BindType::Custom => "Custom"@,
                BindType::Group => "Group"@,
                BindType::Rank => "Rank"@,
                BindType::XP => "XP"@,
            },
    {
        match self {
            BindType::Asset => "Asset",
            BindType::Custom => "Custom",
            BindType::Group => "Group",
            BindType::Rank => "Rank",
            BindType::XP => "XP",
        }
    }
}

} // verus!
