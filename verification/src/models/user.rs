//! RoWifi users: the link between a Discord account and Roblox accounts.
use std::collections::HashMap;
use vstd::prelude::*;

use crate::id::{GuildId, UserId};
use crate::roblox::id::UserId as RobloxUserId;

verus! {

/// A Discord user with linked Roblox accounts. `linked_accounts` maps a
/// guild id to the Roblox account used in that guild.
#[derive(Clone, Debug)]
pub struct RoUser {
    pub user_id: UserId,
    pub default_account_id: RobloxUserId,
    pub linked_accounts: HashMap<u64, RobloxUserId>,
    pub other_accounts: Vec<RobloxUserId>,
    pub flags: UserFlags,
}

#[derive(Clone, Debug)]
pub struct PatreonUser {
    pub user_id: UserId,
    pub kind: PatreonUserType,
    pub patreon_id: i64,
    pub premium_servers: Vec<GuildId>,
    pub transferred_from: Option<UserId>,
    pub transferred_to: Option<UserId>,
}

#[derive(Clone, Debug)]
pub struct LinkedUser {
    pub guild_id: GuildId,
    pub user_id: UserId,
    pub roblox_id: RobloxUserId,
}

/// A set of user flags, held as the bits of an `i64`.
#[derive(Clone, Copy, Debug, PartialEq, Eq, Structural)]
pub struct UserFlags {
    pub bits: i64,
}

#[derive(Clone, Copy, Debug, PartialEq, Eq, Structural)]
pub enum PatreonUserType {
    NoPatron,
    Alpha,
    Beta,
}

impl UserFlags {
    /// The bits that name a flag.
    pub open spec fn known_bits() -> i64 {
        12
    }

    pub fn none() -> (f: UserFlags)
        ensures
            f.bits == 0,
    {
        UserFlags { bits: 0 }
    }

    pub fn staff() -> (f: UserFlags)
        ensures
            f.bits == 4,
    {
        UserFlags { bits: 4 }
    }

    pub fn partner() -> (f: UserFlags)
        ensures
            f.bits == 8,
    {
        UserFlags { bits: 8 }
    }

    /// The flags among `bits`, ignoring bits that name no flag.
    pub fn from_bits_truncate(bits: i64) -> (f: UserFlags)
        ensures
            f.bits == bits & Self::known_bits(),
    {
        UserFlags { bits: bits & 12 }
    }

    pub fn bits(&self) -> (b: i64)
        ensures
            b == self.bits,
    {
        self.bits
    }

    /// Whether every flag of `other` is set.
    pub fn contains(&self, other: UserFlags) -> (r: bool)
        ensures
            r == (self.bits & other.bits == other.bits),
    {
        self.bits & other.bits == other.bits
    }
}

impl PatreonUserType {
    /// The value stored under the number `n`; other numbers name none.
    pub open spec fn spec_from_number(n: u32) -> Option<PatreonUserType> {
        match n {
            0 => Some(PatreonUserType::NoPatron),
            1 => Some(PatreonUserType::Alpha),
            2 => Some(PatreonUserType::Beta),
            _ => None,
        }
    }

    pub fn from_number(n: u32) -> (t: Option<PatreonUserType>)
        ensures
            t == Self::spec_from_number(n),
    {
        match n {
            0 => Some(PatreonUserType::NoPatron),
            1 => Some(PatreonUserType::Alpha),
            2 => Some(PatreonUserType::Beta),
            _ => None,
        }
    }

    pub fn number(&self) -> (n: u32)
        ensures
            Self::spec_from_number(n) == Some(*self),
    {
        match self {
            PatreonUserType::NoPatron => 0,
            PatreonUserType::Alpha => 1,
            PatreonUserType::Beta => 2,
        }
    }
}

} // verus!
