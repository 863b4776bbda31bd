//! The data that RoWifi keeps about guilds, binds, deny lists and users.
use vstd::prelude::*;

pub mod analytics;
pub mod audit_log;
pub mod backup;
pub mod bind;
pub mod custom;
pub mod deny_list;
pub mod discord;
pub mod events;
pub mod guild;
pub mod user;

verus! {

} // verus!
