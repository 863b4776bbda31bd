//! The audit log of configuration changes.
use vstd::prelude::*;

use crate::id::{GuildId, UserId};
use crate::models::bind::BindType;
use crate::models::deny_list::DenyListType;
use crate::roblox::id::{GroupId, UserId as RobloxUserId};

verus! {

/// One audit log entry; `timestamp` is in seconds since the Unix epoch.
#[derive(Clone, Debug)]
pub struct AuditLog {
    pub kind: AuditLogKind,
    pub metadata: AuditLogData,
    pub guild_id: Option<GuildId>,
    pub user_id: Option<UserId>,
    pub timestamp: i64,
}

#[derive(Clone, Copy, Debug, PartialEq, Eq, PartialOrd, Ord, Structural)]
pub enum AuditLogKind {
    BindCreate,
    BindModify,
    BindDelete,
    XPAdd,
    XPRemove,
    SetRank,
    XPSet,
    DenylistCreate,
    DenylistDelete,
    EventLog,
    SettingModify,
    EventTypeCreate,
    EventTypeModify,
    GroupAccept,
    GroupDecline,
}

#[derive(Clone, Debug)]
pub enum AuditLogData {
    BindCreate(BindCreate),
    BindModify(BindModify),
    BindDelete(BindDelete),
    XPAdd(XPAdd),
    XPRemove(XPRemove),
    SetRank(SetRank),
    XPSet(XPSet),
    DenylistCreate(DenylistCreate),
    DenylistDelete(DenylistDelete),
    EventLog(EventLog),
    SettingModify(SettingModify),
    EventTypeCreate(EventTypeCreate),
    EventTypeDelete(EventTypeDelete),
    EventTypeModify(EventTypeModify),
    GroupAccept(GroupAccept),
    GroupDecline(GroupDecline),
}

#[derive(Clone, Debug)]
pub struct BindCreate {
    pub count: i32,
    pub kind: BindType,
}

#[derive(Clone, Debug)]
pub struct BindModify {
    pub count: i32,
    pub kind: BindType,
}

#[derive(Clone, Debug)]
pub struct BindDelete {
    pub count: i32,
    pub kind: BindType,
}

#[derive(Clone, Debug)]
pub struct XPAdd {
    pub xp: i32,
    pub target_roblox_user: RobloxUserId,
}

#[derive(Clone, Debug)]
pub struct XPRemove {
    pub xp: i32,
    pub target_roblox_user: RobloxUserId,
}

#[derive(Clone, Debug)]
pub struct SetRank {
    pub target_roblox_user: RobloxUserId,
    pub group_id: GroupId,
    pub group_rank_id: u32,
}

#[derive(Clone, Debug)]
pub struct XPSet {
    pub xp: i32,
    pub target_roblox_user: RobloxUserId,
}

#[derive(Clone, Debug)]
pub struct DenylistCreate {
    pub kind: DenyListType,
}

#[derive(Clone, Debug)]
pub struct DenylistDelete {
    pub count: i32,
}

#[derive(Clone, Debug)]
pub struct EventLog {
    pub guild_event_id: i64,
}

#[derive(Clone, Debug)]
pub struct SettingModify {
    pub setting: String,
    pub value: String,
}

#[derive(Clone, Debug)]
pub struct EventTypeCreate {
    pub id: u32,
}

#[derive(Clone, Debug)]
pub struct EventTypeModify {
    pub id: u32,
}

#[derive(Clone, Debug)]
pub struct EventTypeDelete {
    pub id: u32,
}

#[derive(Clone, Debug)]
pub struct GroupAccept {
    pub group_id: GroupId,
    pub target_roblox_user: RobloxUserId,
}

#[derive(Clone, Debug)]
pub struct GroupDecline {
    pub group_id: GroupId,
    pub target_roblox_user: RobloxUserId,
}

impl AuditLogKind {
    /// The kind stored under the number `n` (1 to 15); other numbers name no kind.
    pub open spec fn spec_from_number(n: int) -> Option<AuditLogKind> {
        if n == 1 {
            Some(AuditLogKind::BindCreate)
        } else if n == 2 {
            Some(AuditLogKind::BindModify)
        } else if n == 3 {
            Some(AuditLogKind::BindDelete)
        } else if n == 4 {
            Some(AuditLogKind::XPAdd)
        } else if n == 5 {
            Some(AuditLogKind::XPRemove)
        } else if n == 6 {
            Some(AuditLogKind::SetRank)
        } else if n == 7 {
            Some(AuditLogKind::XPSet)
        } else if n == 8 {
            Some(AuditLogKind::DenylistCreate)
        } else if n == 9 {
            Some(AuditLogKind::DenylistDelete)
        } else if n == 10 {
            Some(AuditLogKind::EventLog)
        } else if n == 11 {
            Some(AuditLogKind::SettingModify)
        } else if n == 12 {
            Some(AuditLogKind::EventTypeCreate)
        } else if n == 13 {
            Some(AuditLogKind::EventTypeModify)
        } else if n == 14 {
            Some(AuditLogKind::GroupAccept)
        } else if n == 15 {
            Some(AuditLogKind::GroupDecline)
        } else {
            None
        }
    }

    pub fn from_number(n: u32) -> (k: Option<AuditLogKind>)
        ensures
            k == Self::spec_from_number(n as int),
    {
        match n {
            1 => Some(AuditLogKind::BindCreate),
            2 => Some(AuditLogKind::BindModify),
            3 => Some(AuditLogKind::BindDelete),
            4 => Some(AuditLogKind::XPAdd),
            5 => Some(AuditLogKind::XPRemove),
            6 => Some(AuditLogKind::SetRank),
            7 => Some(AuditLogKind::XPSet),
            8 => Some(AuditLogKind::DenylistCreate),
            9 => Some(AuditLogKind::DenylistDelete),
            10 => Some(AuditLogKind::EventLog),
            11 => Some(AuditLogKind::SettingModify),
            12 => Some(AuditLogKind::EventTypeCreate),
            13 => Some(AuditLogKind::EventTypeModify),
            14 => Some(AuditLogKind::GroupAccept),
            15 => Some(AuditLogKind::GroupDecline),
            _ => None,
        }
    }

    /// The number the kind is stored as.
    pub fn number(&self) -> (n: u32)
        ensures
            Self::spec_from_number(n as int) == Some(*self),
    {
        match self {
            AuditLogKind::BindCreate => 1,
            AuditLogKind::BindModify => 2,
            AuditLogKind::BindDelete => 3,
            AuditLogKind::XPAdd => 4,
            AuditLogKind::XPRemove => 5,
            AuditLogKind::SetRank => 6,
            AuditLogKind::XPSet => 7,
            AuditLogKind::DenylistCreate => 8,
            AuditLogKind::DenylistDelete => 9,
            AuditLogKind::EventLog => 10,
            AuditLogKind::SettingModify => 11,
            AuditLogKind::EventTypeCreate => 12,
            AuditLogKind::EventTypeModify => 13,
            AuditLogKind::GroupAccept => 14,
            AuditLogKind::GroupDecline => 15,
        }
    }
}

} // verus!
