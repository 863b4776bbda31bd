//! Roblox API models.
use vstd::prelude::*;

pub mod group;
pub mod id;
pub mod inventory;
pub mod universe;
pub mod user;

verus! {

/// A long-running operation of the Roblox Open Cloud API.
pub struct Operation<T> {
    pub response: T,
}

} // verus!
