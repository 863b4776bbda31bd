use std::collections::HashMap;

use rowifi::backups::delete::delete_backup;
use rowifi::backups::new::create_backup;
use rowifi::backups::restore::{backup_role_names, find_role, roles_to_create, restore_backup, BackupError, BackupGuildRow};
use rowifi::id::{GuildId, RoleId};
use rowifi::models::bind::{Groupbind, Template};
use rowifi::models::guild::{BypassRole, BypassRoleKind, PartialRoGuild};
use rowifi::roblox::id::GroupId;

fn guild() -> PartialRoGuild {
    let mut g = PartialRoGuild::new(GuildId(1));
    g.verified_roles = vec![RoleId(10), RoleId(99)];
    g.bypass_roles = vec![BypassRole { role_id: RoleId(11), kind: BypassRoleKind::Nickname }];
    g.groupbinds = vec![Groupbind {
        group_id: GroupId(3),
        discord_roles: vec![RoleId(11), RoleId(10)],
        priority: 2,
        template: Template("{roblox-username}".to_string()),
    }];
    g.update_on_join = Some(true);
    g
}

fn names() -> HashMap<u64, String> {
    let mut names = HashMap::new();
    names.insert(10, "Verified".to_string());
    names.insert(11, "Staff".to_string());
    names
}

#[test]
fn backup_records_roles_by_name() {
    let backup = create_backup(guild(), &names());
    assert_eq!(backup.verified_roles, vec!["Verified".to_string()]);
    assert_eq!(backup.bypass_roles.len(), 1);
    assert_eq!(backup.bypass_roles[0].role, "Staff");
    assert_eq!(backup.groupbinds[0].discord_roles, vec!["Staff".to_string(), "Verified".to_string()]);
    assert_eq!(backup.default_template.0, "{roblox-username}");
    assert!(backup.update_on_join);
    assert!(!backup.auto_detection);
    let names = backup_role_names(&backup);
    assert_eq!(names, vec!["Staff".to_string(), "Verified".to_string()]);
}

#[test]
fn restoring_maps_names_to_the_new_guild_roles() {
    let backup = create_backup(guild(), &names());
    let roles = vec![("Verified".to_string(), RoleId(20)), ("Staff".to_string(), RoleId(21))];
    let target = PartialRoGuild::new(GuildId(2));
    let Ok(restored) = restore_backup(target, Some(BackupGuildRow { data: backup }), &roles) else {
        panic!("the backup exists");
    };
    assert_eq!(restored.guild_id, GuildId(2));
    assert_eq!(restored.verified_roles, vec![RoleId(20)]);
    assert_eq!(restored.groupbinds[0].discord_roles, vec![RoleId(21), RoleId(20)]);
    assert_eq!(restored.bypass_roles, vec![BypassRole { role_id: RoleId(21), kind: BypassRoleKind::Nickname }]);
    assert_eq!(restored.update_on_join, Some(true));
}

#[test]
fn restoring_a_missing_backup_fails() {
    let r = restore_backup(PartialRoGuild::new(GuildId(2)), None, &[]);
    assert!(matches!(r, Err(BackupError::NotFound)));
}

#[test]
fn the_last_role_with_a_name_is_used() {
    let roles = vec![("A".to_string(), RoleId(1)), ("B".to_string(), RoleId(2)), ("A".to_string(), RoleId(3))];
    assert_eq!(find_role(&roles, &"A".to_string()), Some(RoleId(3)));
    assert_eq!(find_role(&roles, &"C".to_string()), None);
}

#[test]
fn deleting_a_backup_reports_removal() {
    assert!(delete_backup(1));
    assert!(!delete_backup(0));
}

#[test]
fn only_missing_roles_are_created() {
    let backup = create_backup(guild(), &names());
    let roles = vec![("Verified".to_string(), RoleId(9))];
    assert_eq!(roles_to_create(&backup, &roles), vec!["Staff".to_string()]);
    assert!(roles_to_create(&backup, &[("Staff".to_string(), RoleId(1)), ("Verified".to_string(), RoleId(2))]).is_empty());
}
