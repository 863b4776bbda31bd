//! Discord snowflake identifiers.
use vstd::prelude::*;

verus! {

/// A Discord guild (server) id.
#[derive(Clone, Copy, Debug, PartialEq, Eq, Hash, Structural)]
pub struct GuildId(pub u64);

/// A Discord user id.
#[derive(Clone, Copy, Debug, PartialEq, Eq, Hash, Structural)]
pub struct UserId(pub u64);

/// A Discord role id.
#[derive(Clone, Copy, Debug, PartialEq, Eq, Hash, Structural)]
pub struct RoleId(pub u64);

/// A Discord channel id.
#[derive(Clone, Copy, Debug, PartialEq, Eq, Hash, Structural)]
pub struct ChannelId(pub u64);

/// A Discord application command id.
#[derive(Clone, Copy, Debug, PartialEq, Eq, Hash, Structural)]
pub struct CommandId(pub u64);

impl GuildId {
    pub fn new(id: u64) -> (r: Self)
        ensures
            r.0 == id,
    {
        GuildId(id)
    }

    pub fn get(&self) -> (r: u64)
        ensures
            r == self.0,
    {
        self.0
    }
}

impl UserId {
    pub fn new(id: u64) -> (r: Self)
        ensures
            r.0 == id,
    {
        UserId(id)
    }

    pub fn get(&self) -> (r: u64)
        ensures
            r == self.0,
    {
        self.0
    }
}

impl RoleId {
    pub fn new(id: u64) -> (r: Self)
        ensures
            r.0 == id,
    {
        RoleId(id)
    }

    pub fn get(&self) -> (r: u64)
        ensures
            r == self.0,
    {
        self.0
    }
}

impl ChannelId {
    pub fn new(id: u64) -> (r: Self)
        ensures
            r.0 == id,
    {
        ChannelId(id)
    }
}

} // verus!
