//! Items of a Roblox user's inventory.
use vstd::prelude::*;

use crate::models::bind::AssetType;

verus! {

/// One inventory item: an asset, a badge or a gamepass.
#[derive(Debug)]
pub enum InventoryItem {
    Asset(AssetDetails),
    Badge(BadgeDetails),
    Gamepass(GamepassDetails),
}

#[derive(Clone, Debug)]
pub struct AssetDetails {
    pub asset_id: String,
}

#[derive(Clone, Debug)]
pub struct BadgeDetails {
    pub badge_id: String,
}

#[derive(Clone, Debug)]
pub struct GamepassDetails {
    pub gamepass_id: String,
}

impl InventoryItem {
    /// The kind of asset the item is.
    pub fn kind(&self) -> (k: AssetType)
        ensures
            k == match self {
                InventoryItem::Asset(_) => AssetType::Asset,
                InventoryItem::Badge(_) => AssetType::Badge,
                InventoryItem::Gamepass(_) => AssetType::Gamepass,
            },
    {
        match self {
            InventoryItem::Asset(_) => AssetType::Asset,
            InventoryItem::Badge(_) => AssetType::Badge,
            InventoryItem::Gamepass(_) => AssetType::Gamepass,
        }
    }

    /// The id of the asset, badge or gamepass, as the API spells it.
    pub fn item_id(&self) -> (id: &String)
        ensures
            *id == match self {
                InventoryItem::Asset(a) => a.asset_id,
                InventoryItem::Badge(b) => b.badge_id,
                InventoryItem::Gamepass(g) => g.gamepass_id,
            },
    {
        match self {
            InventoryItem::Asset(a) => &a.asset_id,
            InventoryItem::Badge(b) => &b.badge_id,
            InventoryItem::Gamepass(g) => &g.gamepass_id,
        }
    }
}

} // verus!
