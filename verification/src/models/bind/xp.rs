use vstd::prelude::*;

use crate::roblox::id::GroupId;

verus! {

#[derive(Debug)]
pub struct XPBind {
    pub group_id: GroupId,
    pub group_rank_id: u32,
    pub roblox_rank_id: String,
    /// XP required to reach this rank
    pub xp: i64,
}

impl Clone for XPBind {
    fn clone(&self) -> (r: Self)
        ensures
            r == *self,
    {
        XPBind {
            group_id: self.group_id,
            group_rank_id: self.group_rank_id,
            roblox_rank_id: self.roblox_rank_id.clone(),
            xp: self.xp,
        }
    }
}

} // verus!
