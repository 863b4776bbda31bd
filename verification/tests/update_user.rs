use std::collections::HashMap;

use rowifi::id::{GuildId, RoleId, UserId};
use rowifi::models::bind::{Assetbind, AssetType, Custombind, Groupbind, Rankbind, Template};
use rowifi::models::deny_list::{DenyList, DenyListActionType, DenyListData};
use rowifi::models::discord::{CachedGuild, CachedMember, CachedUser};
use rowifi::models::guild::{BypassRole, BypassRoleKind, PartialRoGuild};
use rowifi::models::user::{RoUser, UserFlags};
use rowifi::roblox::id::{AssetId, GroupId, UserId as RobloxUserId};
use rowifi::roblox::user::PartialUser;
use rowifi::user::update::{UpdateUser, UpdateUserError};

fn member(roles: Vec<RoleId>, nickname: Option<&str>) -> CachedMember {
    CachedMember {
        roles,
        nickname: nickname.map(|n| n.to_string()),
        id: UserId(500),
        username: "discorduser".to_string(),
        discriminator: 0,
    }
}

fn discord_user() -> CachedUser {
    CachedUser { id: UserId(500), username: "discorduser".to_string() }
}

fn ro_user() -> RoUser {
    let mut linked = HashMap::new();
    linked.insert(1, RobloxUserId(77));
    RoUser {
        user_id: UserId(500),
        default_account_id: RobloxUserId(66),
        linked_accounts: linked,
        other_accounts: vec![],
        flags: UserFlags::none(),
    }
}

fn server() -> CachedGuild {
    CachedGuild {
        id: GuildId(1),
        name: "g".to_string(),
        icon: None,
        member_count: 2,
        owner_id: UserId(1),
        roles: vec![RoleId(10), RoleId(11), RoleId(12), RoleId(13)],
        channels: vec![],
    }
}

fn roblox_user() -> PartialUser {
    PartialUser { create_time: None, id: RobloxUserId(77), name: "robloxian".to_string(), display_name: Some("Rob".to_string()) }
}

fn guild() -> PartialRoGuild {
    let mut g = PartialRoGuild::new(GuildId(1));
    g.verified_roles = vec![RoleId(10)];
    g.rankbinds = vec![Rankbind {
        group_id: GroupId(5),
        discord_roles: vec![RoleId(11)],
        group_rank_id: 3,
        roblox_rank_id: "r".to_string(),
        priority: 1,
        template: Template("[R] {roblox-username}".to_string()),
    }];
    g.groupbinds = vec![Groupbind {
        group_id: GroupId(6),
        discord_roles: vec![RoleId(12)],
        priority: 5,
        template: Template("[G] {display-name}".to_string()),
    }];
    g.assetbinds = vec![Assetbind {
        asset_id: AssetId(900),
        asset_type: AssetType::Gamepass,
        discord_roles: vec![RoleId(13)],
        priority: 0,
        template: Template("x".to_string()),
    }];
    g
}

#[test]
fn update_adds_and_removes_bound_roles() {
    let g = guild();
    let m = member(vec![RoleId(13), RoleId(99)], None);
    let u = ro_user();
    let s = server();
    let du = discord_user();
    let all = [RoleId(10), RoleId(11), RoleId(12), RoleId(13)];
    let update = UpdateUser { discord_member: &m, discord_user: &du, user: &u, server: &s, guild: &g, all_roles: &all };
    assert_eq!(update.roblox_account(), RobloxUserId(77));
    let mut ranks = HashMap::new();
    ranks.insert(5, 3);
    let Ok(plan) = update.execute(&ranks, &roblox_user(), &vec![]) else {
        panic!("no deny list applies");
    };
    assert_eq!(plan.added_roles, vec![RoleId(10), RoleId(11)]);
    assert_eq!(plan.removed_roles, vec![RoleId(13)]);
    assert_eq!(plan.nickname, "[R] robloxian");
    assert_eq!(plan.roles, Some(vec![99, 10, 11]));
    assert_eq!(plan.nick, Some("[R] robloxian".to_string()));
}

#[test]
fn the_highest_priority_bind_names_the_member() {
    let g = guild();
    let m = member(vec![], Some("[G] Rob"));
    let u = ro_user();
    let s = server();
    let du = discord_user();
    let all = [RoleId(10), RoleId(11), RoleId(12), RoleId(13)];
    let update = UpdateUser { discord_member: &m, discord_user: &du, user: &u, server: &s, guild: &g, all_roles: &all };
    let mut ranks = HashMap::new();
    ranks.insert(5, 3);
    ranks.insert(6, 1);
    let Ok(plan) = update.execute(&ranks, &roblox_user(), &vec!["900".to_string()]) else {
        panic!("no deny list applies");
    };
    assert_eq!(plan.nickname, "[G] Rob");
    assert_eq!(plan.nick, None);
    assert_eq!(plan.added_roles, vec![RoleId(10), RoleId(11), RoleId(12), RoleId(13)]);
}

#[test]
fn deny_lists_refuse_the_update() {
    let mut g = guild();
    g.deny_lists = vec![
        DenyList { id: 1, reason: "a".to_string(), action_type: DenyListActionType::Ban, data: DenyListData::User(RobloxUserId(77)) },
        DenyList { id: 2, reason: "b".to_string(), action_type: DenyListActionType::Kick, data: DenyListData::Group(GroupId(5)) },
        DenyList { id: 3, reason: "c".to_string(), action_type: DenyListActionType::Ban, data: DenyListData::Custom("IsInGroup(5)".to_string()) },
    ];
    let m = member(vec![], None);
    let u = ro_user();
    let s = server();
    let du = discord_user();
    let update = UpdateUser { discord_member: &m, discord_user: &du, user: &u, server: &s, guild: &g, all_roles: &[] };
    let mut ranks = HashMap::new();
    ranks.insert(5, 3);
    match update.execute(&ranks, &roblox_user(), &vec![]) {
        Err(UpdateUserError::DenyList((id, list))) => {
            assert_eq!(id, UserId(500));
            assert_eq!(list.id, 3);
        },
        _ => panic!("a deny list applies"),
    }
}

#[test]
fn broken_custom_codes_refuse_the_update() {
    let mut g = guild();
    g.custombinds = vec![Custombind {
        custom_bind_id: 8,
        discord_roles: vec![],
        code: "Foo(1)".to_string(),
        priority: 0,
        template: Template("x".to_string()),
    }];
    let m = member(vec![], None);
    let u = ro_user();
    let s = server();
    let du = discord_user();
    let update = UpdateUser { discord_member: &m, discord_user: &du, user: &u, server: &s, guild: &g, all_roles: &[] };
    match update.execute(&HashMap::new(), &roblox_user(), &vec![]) {
        Err(UpdateUserError::CustombindEvaluation { id, err }) => {
            assert_eq!(id, 8);
            assert_eq!(err.message(), "Function Foo is not a valid function");
        },
        _ => panic!("the code does not evaluate"),
    }
}

#[test]
fn long_nicknames_are_refused_and_bypass_roles_skip_updates() {
    let mut g = guild();
    g.default_template = Some(Template("{roblox-username}-{roblox-username}-{roblox-username}-{roblox-username}".to_string()));
    g.rankbinds.clear();
    g.groupbinds.clear();
    g.assetbinds.clear();
    let m = member(vec![], None);
    let u = ro_user();
    let s = server();
    let du = discord_user();
    let update = UpdateUser { discord_member: &m, discord_user: &du, user: &u, server: &s, guild: &g, all_roles: &[] };
    assert!(matches!(update.execute(&HashMap::new(), &roblox_user(), &vec![]), Err(UpdateUserError::InvalidNickname(_))));
    g.bypass_roles = vec![BypassRole { role_id: RoleId(10), kind: BypassRoleKind::Nickname }];
    let m = member(vec![RoleId(10)], None);
    let update = UpdateUser { discord_member: &m, discord_user: &du, user: &u, server: &s, guild: &g, all_roles: &[] };
    let Ok(plan) = update.execute(&HashMap::new(), &roblox_user(), &vec![]) else {
        panic!("the nickname is bypassed");
    };
    assert_eq!(plan.nick, None);
}
