//! Deny lists: Roblox users, groups or custom conditions barred from a guild.
use vstd::prelude::*;

use crate::roblox::id::{GroupId, UserId};

verus! {

#[derive(Debug)]
pub struct DenyList {
    pub id: u32,
    pub reason: String,
    pub action_type: DenyListActionType,
    pub data: DenyListData,
}

/// What a deny list matches.
#[derive(Debug, PartialEq, Eq)]
pub enum DenyListData {
    User(UserId),
    Group(GroupId),
    /// Custom bind code that matches the members for whom it holds.
    Custom(String),
}

#[derive(Clone, Copy, Debug, PartialEq, Eq, Structural)]
pub enum DenyListType {
    User,
    Group,
    Custom,
}

/// What happens to a matched member; variants are in increasing severity.
#[derive(Clone, Copy, Debug, Default, PartialEq, Eq, PartialOrd, Ord, Structural)]
pub enum DenyListActionType {
    #[default]
    NoAction,
    Kick,
    Ban,
}

impl DenyListActionType {
    /// The severity of the action: `None` < `Kick` < `Ban`.
    pub open spec fn rank(self) -> nat {
        match self {
            DenyListActionType::NoAction => 0,
            DenyListActionType::Kick => 1,
            DenyListActionType::Ban => 2,
        }
    }

    pub fn severity(&self) -> (r: u8)
        ensures
            r == self.rank(),
    {
        match self {
            DenyListActionType::NoAction => 0,
            DenyListActionType::Kick => 1,
            DenyListActionType::Ban => 2,
        }
    }
}

impl Clone for DenyListData {
    fn clone(&self) -> (r: Self)
        ensures
            r == *self,
    {
        match self {
            DenyListData::User(u) => DenyListData::User(*u),
            DenyListData::Group(g) => DenyListData::Group(*g),
            DenyListData::Custom(c) => DenyListData::Custom(c.clone()),
        }
    }
}

impl Clone for DenyList {
    fn clone(&self) -> (r: Self)
        ensures
            r == *self,
    {
        DenyList {
            id: self.id,
            reason: self.reason.clone(),
            action_type: self.action_type,
            data: self.data.clone(),
        }
    }
}

impl DenyListData {
    /// Two deny lists match the same members when their data is equal.
    pub open spec fn same_as(self, other: DenyListData) -> bool {
        match (self, other) {
            (DenyListData::User(a), DenyListData::User(b)) => a == b,
            (DenyListData::Group(a), DenyListData::Group(b)) => a == b,
            (DenyListData::Custom(a), DenyListData::Custom(b)) => a@ == b@,
            _ => false,
        }
    }

    pub fn equals(&self, other: &DenyListData) -> (r: bool)
        ensures
            r == self.same_as(*other),
    {
        match (self, other) {
            (DenyListData::User(a), DenyListData::User(b)) => *a == *b,
            (DenyListData::Group(a), DenyListData::Group(b)) => *a == *b,
            (DenyListData::Custom(a), DenyListData::Custom(b)) => *a == *b,
            _ => false,
        }
    }
}

impl DenyList {
    pub open spec fn kind_of(data: DenyListData) -> DenyListType {
        match data {
            DenyListData::User(_) => DenyListType::User,
            DenyListData::Group(_) => DenyListType::Group,
            DenyListData::Custom(_) => DenyListType::Custom,
        }
    }

    /// The type of the deny list, from what it matches.
    pub fn kind(&self) -> (k: DenyListType)
        ensures
            k == Self::kind_of(self.data),
    {
        match self.data {
            DenyListData::User(_) => DenyListType::User,
            DenyListData::Group(_) => DenyListType::Group,
            DenyListData::Custom(_) => DenyListType::Custom,
        }
    }
}

impl DenyListType {
    /// The name of the type (its `Display` form).
    pub fn name(&self) -> (s: &'static str)
        ensures
            s@ == match self {
                DenyListType::User => "User"@,
                DenyListType::Group => "Group"@,
                DenyListType::Custom => "Custom"@,
            },
    {
        match self {
            DenyListType::User => "User",
            DenyListType::Group => "Group",
            DenyListType::Custom => "Custom",
        }
    }
}

/// The flat form in which a deny list is stored: its kind and, in the field that the
/// kind names, what it matches.
#[derive(Debug)]
pub struct DenyListRecord {
    pub id: u32,
    pub reason: String,
    pub kind: DenyListType,
    pub action_type: DenyListActionType,
    pub user_id: Option<UserId>,
    pub group_id: Option<GroupId>,
    pub code: Option<String>,
}

impl DenyListRecord {
    /// The field that the kind names is filled.
    pub open spec fn complete(self) -> bool {
        match self.kind {
            DenyListType::User => self.user_id is Some,
            DenyListType::Group => self.group_id is Some,
            DenyListType::Custom => self.code is Some,
        }
    }

    /// Only the field that the kind names is filled.
    pub open spec fn canonical(self) -> bool {
        &&& self.complete()
        &&& (self.kind != DenyListType::User ==> self.user_id is None)
        &&& (self.kind != DenyListType::Group ==> self.group_id is None)
        &&& (self.kind != DenyListType::Custom ==> self.code is None)
    }

    pub fn is_complete(&self) -> (r: bool)
        ensures
            r == self.complete(),
    {
        match self.kind {
            DenyListType::User => self.user_id.is_some(),
            DenyListType::Group => self.group_id.is_some(),
            DenyListType::Custom => self.code.is_some(),
        }
    }

    /// The deny list that the record stores; fields other than the one its kind names
    /// are ignored.
    pub open spec fn to_list(self) -> DenyList {
        DenyList {
            id: self.id,
            reason: self.reason,
            action_type: self.action_type,
            data: match self.kind {
                DenyListType::User => DenyListData::User(self.user_id->0),
                DenyListType::Group => DenyListData::Group(self.group_id->0),
                DenyListType::Custom => DenyListData::Custom(self.code->0),
            },
        }
    }
}

impl DenyList {
    /// The record that stores a deny list.
    pub open spec fn record_of(self) -> DenyListRecord {
        DenyListRecord {
            id: self.id,
            reason: self.reason,
            kind: Self::kind_of(self.data),
            action_type: self.action_type,
            user_id: match self.data {
                DenyListData::User(u) => Some(u),
                _ => None,
            },
            group_id: match self.data {
                DenyListData::Group(g) => Some(g),
                _ => None,
            },
            code: match self.data {
                DenyListData::Custom(c) => Some(c),
                _ => None,
            },
        }
    }

    /// Flattens the deny list into the record that stores it.
    pub fn to_record(&self) -> (r: DenyListRecord)
        ensures
            r == self.record_of(),
    {
        let (user_id, group_id, code) = match &self.data {
            DenyListData::User(u) => (Some(*u), None, None),
            DenyListData::Group(g) => (None, Some(*g), None),
            DenyListData::Custom(c) => (None, None, Some(c.clone())),
        };
        DenyListRecord {
            id: self.id,
            reason: self.reason.clone(),
            kind: self.kind(),
            action_type: self.action_type,
            user_id,
            group_id,
            code,
        }
    }

    /// Reads a deny list back from its record.
    pub fn from_record(record: DenyListRecord) -> (r: DenyList)
        requires
            record.complete(),
        ensures
            r == record.to_list(),
    {
        let data = match record.kind {
            DenyListType::User => DenyListData::User(record.user_id.unwrap()),
            DenyListType::Group => DenyListData::Group(record.group_id.unwrap()),
            DenyListType::Custom => DenyListData::Custom(record.code.unwrap()),
        };
        DenyList { id: record.id, reason: record.reason, action_type: record.action_type, data }
    }
}

/// Storing a deny list and reading it back gives the same deny list, and the record
/// stored is canonical; a canonical record read and stored again is the same record.
pub proof fn lemma_deny_list_record_round_trip(list: DenyList, record: DenyListRecord)
    ensures
        list.record_of().canonical(),
        list.record_of().to_list() == list,
        record.canonical() ==> record.to_list().record_of() == record,
{
}

} // verus!
