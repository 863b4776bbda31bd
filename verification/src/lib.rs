//! Verified core of the RoWifi Discord/Roblox verification bot: the custom
//! bind language (parser and evaluator), bind and deny-list bookkeeping, the
//! member update decision, workflow validation and the command framework's
//! argument conversions.
use vstd::prelude::*;

pub mod text;
pub mod id;
pub mod roblox;
pub mod models;
pub mod collections;
pub mod server_roles;
pub mod error;
pub mod database;
pub mod assetbinds;
pub mod groupbinds;
pub mod rankbinds;
pub mod denylists;
pub mod custombinds;
pub mod events;
pub mod backups;
pub mod custom;
pub mod user;
pub mod framework;
pub mod lemonsqueezy;

verus! {

} // verus!
