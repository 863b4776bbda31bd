use std::collections::HashMap;

use rowifi::assetbinds::{add_assetbind, delete_assetbinds, AssetbindArguments};
use rowifi::custombinds::add::{add_custombind, AddCustombindError, CustombindArguments};
use rowifi::denylists::add::{add_denylist, AddDenylistError, DenylistArguments};
use rowifi::denylists::delete::delete_denylists;
use rowifi::groupbinds::{add_groupbind, delete_groupbinds, AddGroupbindError, GroupbindArguments};
use rowifi::id::RoleId;
use rowifi::models::bind::{AssetType, Assetbind, Custombind, Groupbind, Template};
use rowifi::models::deny_list::{DenyList, DenyListActionType, DenyListData, DenyListType};
use rowifi::models::discord::CachedRole;
use rowifi::roblox::id::{AssetId, GroupId, UserId as RobloxUserId};

fn role(id: u64, managed: bool) -> CachedRole {
    CachedRole {
        id: RoleId(id),
        name: format!("role{id}"),
        permissions: 0,
        managed,
        position: 0,
        color: 0,
    }
}

fn server() -> HashMap<u64, CachedRole> {
    let mut roles = HashMap::new();
    roles.insert(1, role(1, false));
    roles.insert(2, role(2, true));
    roles.insert(3, role(3, false));
    roles
}

fn template(s: &str) -> Template {
    Template(s.to_string())
}

#[test]
fn assetbind_keeps_only_assignable_roles() {
    let args = AssetbindArguments {
        kind: AssetType::Badge,
        asset_id: AssetId(77),
        template: template("{roblox-username}"),
        priority: Some(4),
        discord_roles: vec![RoleId(1), RoleId(2), RoleId(9), RoleId(3)],
    };
    let (added, _) = add_assetbind(&[], &server(), args);
    assert_eq!(added.bind.discord_roles, vec![RoleId(1), RoleId(3)]);
    assert_eq!(added.ignored_roles, vec![RoleId(2)]);
    assert_eq!(added.bind.priority, 4);
    assert_eq!(added.bind.asset_id, AssetId(77));
    assert!(!added.modified);
}

#[test]
fn groupbind_needs_an_existing_group() {
    let args = GroupbindArguments {
        group_id: GroupId(5),
        template: template("N"),
        priority: None,
        discord_roles: vec![RoleId(1)],
    };
    assert!(matches!(add_groupbind(false, vec![], &server(), args), Err(AddGroupbindError::InvalidGroup)));
}

#[test]
fn groupbind_is_updated_in_place() {
    let existing = vec![Groupbind {
        group_id: GroupId(5),
        discord_roles: vec![RoleId(3)],
        priority: 1,
        template: template("old"),
    }];
    let args = GroupbindArguments {
        group_id: GroupId(5),
        template: template("new"),
        priority: Some(9),
        discord_roles: vec![RoleId(1)],
    };
    let Ok((added, stored)) = add_groupbind(true, existing, &server(), args) else {
        panic!("the group exists");
    };
    assert!(added.modified);
    assert_eq!(stored.len(), 1);
    assert_eq!(stored[0].template.0, "new");
    assert_eq!(stored[0].priority, 9);
}

#[test]
fn deleting_groupbinds_reports_unknown_groups() {
    let binds = vec![
        Groupbind { group_id: GroupId(1), discord_roles: vec![], priority: 0, template: template("a") },
        Groupbind { group_id: GroupId(2), discord_roles: vec![], priority: 0, template: template("b") },
    ];
    let r = delete_groupbinds(binds, vec![GroupId(2), GroupId(3), GroupId(2)]);
    assert_eq!(r.to_delete, vec![GroupId(2)]);
    assert_eq!(r.invalid, vec![GroupId(3)]);
    assert_eq!(r.new_groupbinds.len(), 1);
    assert_eq!(r.new_groupbinds[0].group_id, GroupId(1));
    let one = vec![Groupbind { group_id: GroupId(7), discord_roles: vec![], priority: 0, template: template("c") }];
    assert!(delete_groupbinds(one, vec![GroupId(7)]).new_groupbinds.is_empty());
}

#[test]
fn deleting_assetbinds_reports_unknown_assets() {
    let binds = vec![Assetbind {
        asset_id: AssetId(10),
        asset_type: AssetType::Asset,
        discord_roles: vec![],
        priority: 0,
        template: template("x"),
    }];
    let r = delete_assetbinds(binds, vec![AssetId(11), AssetId(10)]);
    assert_eq!(r.to_delete, vec![AssetId(10)]);
    assert_eq!(r.invalid, vec![AssetId(11)]);
}

#[test]
fn custombind_code_must_parse() {
    let args = CustombindArguments {
        code: "IsInGroup(".to_string(),
        template: template("x"),
        priority: None,
        discord_roles: vec![],
    };
    assert!(matches!(add_custombind(&[], &server(), args), Err(AddCustombindError::Code(_))));
}

#[test]
fn custombind_gets_the_next_id() {
    let existing = vec![Custombind {
        custom_bind_id: 4,
        discord_roles: vec![],
        code: "IsInGroup(1)".to_string(),
        priority: 0,
        template: template("x"),
    }];
    let args = CustombindArguments {
        code: "IsInGroup(2)".to_string(),
        template: template("y"),
        priority: Some(2),
        discord_roles: vec![RoleId(3), RoleId(2)],
    };
    let Ok(added) = add_custombind(&existing, &server(), args) else {
        panic!("the code parses");
    };
    assert_eq!(added.bind.custom_bind_id, 5);
    assert_eq!(added.bind.discord_roles, vec![RoleId(3)]);
    assert_eq!(added.ignored_roles, vec![RoleId(2)]);
}

#[test]
fn denylist_needs_its_target() {
    let args = DenylistArguments {
        kind: DenyListType::User,
        action: DenyListActionType::Ban,
        reason: "spam".to_string(),
        user_id: None,
        group_id: None,
        code: None,
    };
    assert!(matches!(add_denylist(vec![], args), Err(AddDenylistError::MissingUser)));
    let args = DenylistArguments {
        kind: DenyListType::Custom,
        action: DenyListActionType::Ban,
        reason: "spam".to_string(),
        user_id: None,
        group_id: None,
        code: Some("(".to_string()),
    };
    assert!(matches!(add_denylist(vec![], args), Err(AddDenylistError::IncorrectCode(_))));
}

#[test]
fn denylist_for_the_same_user_is_updated() {
    let existing = vec![DenyList {
        id: 3,
        reason: "old".to_string(),
        action_type: DenyListActionType::Kick,
        data: DenyListData::User(RobloxUserId(42)),
    }];
    let args = DenylistArguments {
        kind: DenyListType::User,
        action: DenyListActionType::Ban,
        reason: "new".to_string(),
        user_id: Some(RobloxUserId(42)),
        group_id: None,
        code: None,
    };
    let Ok((new_list, stored)) = add_denylist(existing, args) else {
        panic!("the user is given");
    };
    assert_eq!(new_list.id, 4);
    assert_eq!(stored.len(), 1);
    assert_eq!(stored[0].id, 3);
    assert_eq!(stored[0].reason, "new");
    assert_eq!(stored[0].action_type, DenyListActionType::Ban);
}

#[test]
fn deleting_denylists_keeps_the_others() {
    let lists = vec![
        DenyList { id: 1, reason: "a".to_string(), action_type: DenyListActionType::Kick, data: DenyListData::Group(GroupId(1)) },
        DenyList { id: 2, reason: "b".to_string(), action_type: DenyListActionType::Ban, data: DenyListData::Group(GroupId(2)) },
    ];
    let r = delete_denylists(lists, vec![2, 8]);
    assert_eq!(r.result.deleted, 1);
    assert_eq!(r.result.invalid, vec![8]);
    assert_eq!(r.new_denylists.len(), 1);
    assert_eq!(r.new_denylists[0].id, 1);
}
