use vstd::prelude::*;

use super::Template;
use crate::id::RoleId;
use crate::roblox::id::AssetId;

verus! {

/// Gives roles to members who own an asset, badge or gamepass.
#[derive(Debug)]
pub struct Assetbind {
    /// The ID of the asset
    pub asset_id: AssetId,
    /// The type of the Asset. Can be one of Asset, Badge, Gamepass
    pub asset_type: AssetType,
    /// The discord roles bounded to the asset
    pub discord_roles: Vec<RoleId>,
    /// The number that decides whether this bind is chosen for the nickname
    pub priority: i32,
    /// The format of the nickname if this bind is chosen
    pub template: Template,
}

#[derive(Clone, Copy, Debug, Default, PartialEq, Eq, Structural)]
pub enum AssetType {
    #[default]
    Asset,
    Badge,
    Gamepass,
}

impl Assetbind {
    pub fn discord_roles(&self) -> (r: &[RoleId])
        ensures
            r@ == self.discord_roles@,
    {
        self.discord_roles.as_slice()
    }
}

impl AssetType {
    /// The name of the asset type (its `Display` form).
    pub fn name(&self) -> (s: &'static str)
        ensures
            s@ == match self {
                AssetType::Asset => "Asset"@,
                AssetType::Badge => "Badge"@,
                AssetType::Gamepass => "Gamepass"@,
            },
    {
        match self {
            AssetType::Asset => "Asset",
            AssetType::Badge => "Badge",
            AssetType::Gamepass => "Gamepass",
        }
    }
}


impl Clone for Assetbind {
    fn clone(&self) -> (r: Self)
        ensures
            r.asset_id == self.asset_id,
            r.asset_type == self.asset_type,
            r.discord_roles@ == self.discord_roles@,
            r.priority == self.priority,
            r.template == self.template,
    {
        Assetbind {
            asset_id: self.asset_id,
            asset_type: self.asset_type,
            discord_roles: self.discord_roles.clone(),
            priority: self.priority,
            template: self.template.clone(),
        }
    }
}

} // verus!
