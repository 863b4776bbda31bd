//! Roblox universes (experiences).
use vstd::prelude::*;

verus! {

#[derive(Debug)]
pub struct Universe {
    pub path: String,
    pub display_name: String,
    pub description: String,
    pub user: Option<String>,
    pub group: Option<String>,
}

} // verus!
