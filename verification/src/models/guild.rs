//! A guild's RoWifi configuration.
use vstd::prelude::*;

use crate::id::{ChannelId, GuildId, RoleId};
use crate::models::bind::{Assetbind, Custombind, Groupbind, Rankbind, Template, XPBind};
use crate::models::deny_list::DenyList;
use crate::models::events::EventType;
use crate::roblox::id::GroupId;

verus! {

#[derive(Debug)]
pub struct RoGuild {
    pub guild_id: GuildId,
}

/// Everything RoWifi stores about one guild.
#[derive(Clone, Debug)]
pub struct PartialRoGuild {
    pub guild_id: GuildId,
    pub kind: Option<GuildType>,
    pub bypass_roles: Vec<BypassRole>,
    pub unverified_roles: Vec<RoleId>,
    pub verified_roles: Vec<RoleId>,
    pub rankbinds: Vec<Rankbind>,
    pub groupbinds: Vec<Groupbind>,
    pub assetbinds: Vec<Assetbind>,
    pub custombinds: Vec<Custombind>,
    pub deny_lists: Vec<DenyList>,
    pub default_template: Option<Template>,
    pub update_on_join: Option<bool>,
    pub event_types: Vec<EventType>,
    pub auto_detection: Option<bool>,
    pub xp_binds: Vec<XPBind>,
    pub sync_xp_on_setrank: Option<bool>,
    pub registered_groups: Vec<GroupId>,
    pub sticky_roles: Vec<RoleId>,
    pub log_channel: Option<ChannelId>,
}

/// The guild's subscription tier.
#[derive(Clone, Copy, Debug, Default, PartialEq, Eq, Structural)]
pub enum GuildType {
    #[default]
    Free,
    Alpha,
    Beta,
    Gamma,
}

/// A role whose holders are spared some of the member update.
#[derive(Clone, Copy, Debug, PartialEq, Eq, Structural)]
pub struct BypassRole {
    pub role_id: RoleId,
    pub kind: BypassRoleKind,
}

#[derive(Clone, Copy, Debug, PartialEq, Eq, Structural)]
pub enum BypassRoleKind {
    /// Roles are not changed.
    Roles,
    /// The nickname is not changed.
    Nickname,
    All,
}

impl PartialRoGuild {
    /// A guild with nothing configured yet, on the free tier.
    pub fn new(guild_id: GuildId) -> (g: Self)
        ensures
            g.guild_id == guild_id,
            g.kind == Some(GuildType::Free),
            g.bypass_roles@.len() == 0,
            g.unverified_roles@.len() == 0,
            g.verified_roles@.len() == 0,
            g.rankbinds@.len() == 0,
            g.groupbinds@.len() == 0,
            g.assetbinds@.len() == 0,
            g.custombinds@.len() == 0,
            g.deny_lists@.len() == 0,
            g.default_template is None,
            g.update_on_join is None,
            g.event_types@.len() == 0,
            g.auto_detection is None,
            g.xp_binds@.len() == 0,
            g.sync_xp_on_setrank is None,
            g.registered_groups@.len() == 0,
            g.sticky_roles@.len() == 0,
            g.log_channel is None,
    {
        PartialRoGuild {
            guild_id,
            kind: Some(GuildType::Free),
            bypass_roles: Vec::new(),
            unverified_roles: Vec::new(),
            verified_roles: Vec::new(),
            rankbinds: Vec::new(),
            groupbinds: Vec::new(),
            assetbinds: Vec::new(),
            custombinds: Vec::new(),
            deny_lists: Vec::new(),
            default_template: None,
            update_on_join: None,
            event_types: Vec::new(),
            auto_detection: None,
            xp_binds: Vec::new(),
            sync_xp_on_setrank: None,
            registered_groups: Vec::new(),
            sticky_roles: Vec::new(),
            log_channel: None,
        }
    }
}

impl GuildType {
    /// The value stored under the number `n`; other numbers name none.
    pub open spec fn spec_from_number(n: i32) -> Option<GuildType> {
        match n {
            0 => Some(GuildType::Free),
            1 => Some(GuildType::Alpha),
            2 => Some(GuildType::Beta),
            3 => Some(GuildType::Gamma),
            _ => None,
        }
    }

    /// The tier stored under the number `n`; other numbers name no tier.
    pub fn from_number(n: i32) -> (t: Option<GuildType>)
        ensures
            t == Self::spec_from_number(n),
    {
        match n {
            0 => Some(GuildType::Free),
            1 => Some(GuildType::Alpha),
            2 => Some(GuildType::Beta),
            3 => Some(GuildType::Gamma),
            _ => None,
        }
    }

    /// The number the tier is stored as.
    pub fn number(&self) -> (n: i32)
        ensures
            Self::spec_from_number(n) == Some(*self),
    {
        match self {
            GuildType::Free => 0,
            GuildType::Alpha => 1,
            GuildType::Beta => 2,
            GuildType::Gamma => 3,
        }
    }

    /// The name of the tier (its `Display` form).
    pub fn name(&self) -> (s: &'static str)
        ensures
            s@ == match self {
                GuildType::Free => "Free"@,
                GuildType::Alpha => "Alpha"@,
                GuildType::Beta => "Beta"@,
                GuildType::Gamma => "Gamma"@,
            },
    {
        match self {
            GuildType::Free => "Free",
            GuildType::Alpha => "Alpha",
            GuildType::Beta => "Beta",
            GuildType::Gamma => "Gamma",
        }
    }
}

} // verus!
