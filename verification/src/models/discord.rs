//! Discord data as RoWifi caches it.
use vstd::prelude::*;

use crate::collections::dedup;
use crate::id::{ChannelId, GuildId, RoleId, UserId};
use crate::text::{decimal, decimal_string, push_str};

verus! {

/// A cached guild; `roles` and `channels` hold no id twice.
#[derive(Clone, Debug)]
pub struct CachedGuild {
    pub id: GuildId,
    pub name: String,
    pub icon: Option<String>,
    pub member_count: u64,
    pub owner_id: UserId,
    pub roles: Vec<RoleId>,
    pub channels: Vec<ChannelId>,
}

/// A cached guild member.
#[derive(Clone, Debug)]
pub struct CachedMember {
    pub roles: Vec<RoleId>,
    pub nickname: Option<String>,
    pub id: UserId,
    pub username: String,
    pub discriminator: u16,
}

/// A cached role; `permissions` holds the permission bits.
#[derive(Clone, Debug)]
pub struct CachedRole {
    pub id: RoleId,
    pub name: String,
    pub permissions: u64,
    pub managed: bool,
    pub position: i64,
    pub color: u32,
}

/// A cached Discord user.
#[derive(Clone, Debug)]
pub struct CachedUser {
    pub id: UserId,
    pub username: String,
}

/// A permission overwrite of a channel, as Discord gives it.
#[verifier::external_type_specification]
#[verifier::external_body]
pub struct ExPermissionOverwrite(twilight_model::channel::permission_overwrite::PermissionOverwrite);

#[derive(Debug)]
pub enum CachedChannel {
    Text(CachedTextChannel),
}

#[derive(Debug)]
pub struct CachedTextChannel {
    pub id: ChannelId,
    pub guild_id: GuildId,
    pub name: String,
    pub permission_overwrites: Vec<twilight_model::channel::permission_overwrite::PermissionOverwrite>,
}

/// `prefix` followed by the decimal form of `id`.
pub open spec fn keyed(prefix: Seq<char>, id: u64) -> Seq<char> {
    prefix + decimal(id as nat)
}

fn key_of(prefix: &str, id: u64) -> (s: String)
    ensures
        s@ == keyed(prefix@, id),
{
    let mut s = String::new();
    push_str(&mut s, prefix);
    let digits = decimal_string(id);
    push_str(&mut s, digits.as_str());
    s
}

impl CachedChannel {
    /// The cache key of a channel.
    pub fn key(id: ChannelId) -> (s: String)
        ensures
            s@ == keyed("discord:channels:"@, id.0),
    {
        key_of("discord:channels:", id.0)
    }

    pub fn name(&self) -> (s: &str)
        ensures
            s@ == match self {
                CachedChannel::Text(c) => c.name@,
            },
    {
        match self {
            CachedChannel::Text(c) => c.name.as_str(),
        }
    }
}

impl CachedGuild {
    /// The cache key of a guild.
    pub fn key(id: GuildId) -> (s: String)
        ensures
            s@ == keyed("discord:guilds:"@, id.0),
    {
        key_of("discord:guilds:", id.0)
    }

    /// A cached guild from what Discord says of it: a missing member count
    /// counts as 0, and the role and channel ids are kept once each.
    pub fn from_guild_parts(
        id: GuildId,
        name: String,
        icon: Option<String>,
        member_count: Option<u64>,
        owner_id: UserId,
        roles: Vec<RoleId>,
        channels: Vec<ChannelId>,
    ) -> (g: CachedGuild)
        ensures
            g.id == id,
            g.name == name,
            g.icon == icon,
            g.member_count == match member_count {
                Some(n) => n,
                None => 0,
            },
            g.owner_id == owner_id,
            g.roles@ == dedup(roles@),
            g.channels@ == dedup(channels@),
    {
        let mut unique_roles: Vec<RoleId> = Vec::new();
        let mut i: usize = 0;
        while i < roles.len()
            invariant
                i <= roles@.len(),
                unique_roles@ == dedup(roles@.take(i as int)),
            decreases roles@.len() - i,
        {
            assert(roles@.take(i + 1).drop_last() =~= roles@.take(i as int));
            if !crate::collections::contains_role(unique_roles.as_slice(), roles[i]) {
                unique_roles.push(roles[i]);
            }
            i = i + 1;
        }
        assert(roles@.take(i as int) =~= roles@);
        let mut unique_channels: Vec<ChannelId> = Vec::new();
        let mut j: usize = 0;
        while j < channels.len()
            invariant
                j <= channels@.len(),
                unique_channels@ == dedup(channels@.take(j as int)),
            decreases channels@.len() - j,
        {
            assert(channels@.take(j + 1).drop_last() =~= channels@.take(j as int));
            let c = channels[j];
            let mut seen = false;
            let mut k: usize = 0;
            while k < unique_channels.len()
                invariant
                    k <= unique_channels@.len(),
                    seen == exists|m: int| 0 <= m < k && unique_channels@[m] == c,
                decreases unique_channels@.len() - k,
            {
                if unique_channels[k] == c {
                    seen = true;
                }
                k = k + 1;
            }
            if !seen {
                unique_channels.push(c);
            }
            j = j + 1;
        }
        assert(channels@.take(j as int) =~= channels@);
        CachedGuild {
            id,
            name,
            icon,
            member_count: match member_count {
                Some(n) => n,
                None => 0,
            },
            owner_id,
            roles: unique_roles,
            channels: unique_channels,
        }
    }
}

impl CachedMember {
    /// The cache key of a guild member: `discord:m:` then the guild's id, a
    /// colon and the user's id.
    pub fn key(guild_id: GuildId, user_id: UserId) -> (s: String)
        ensures
            s@ == keyed("discord:m:"@, guild_id.0) + ":"@ + decimal(user_id.0 as nat),
    {
        let mut s = key_of("discord:m:", guild_id.0);
        push_str(&mut s, ":");
        let digits = decimal_string(user_id.0);
        push_str(&mut s, digits.as_str());
        s
    }
}

impl CachedRole {
    /// The cache key of a role.
    pub fn key(id: RoleId) -> (s: String)
        ensures
            s@ == keyed("discord:roles:"@, id.0),
    {
        key_of("discord:roles:", id.0)
    }
}

} // verus!
