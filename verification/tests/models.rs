use rowifi::id::{ChannelId, GuildId, RoleId, UserId};
use rowifi::text::decimal_string;
use rowifi::lemonsqueezy::{activation_form, instance_form, is_success};
use rowifi::models::bind::Template;
use rowifi::models::discord::{CachedChannel, CachedGuild, CachedMember, CachedRole};
use rowifi::models::deny_list::{DenyList, DenyListActionType, DenyListData, DenyListRecord, DenyListType};
use rowifi::roblox::id::{parse_id, GroupId, UserId as RobloxUserId};
use rowifi::roblox::user::PartialUser;

#[test]
fn cache_keys() {
    assert_eq!(CachedGuild::key(GuildId(12)), "discord:guilds:12");
    assert_eq!(CachedChannel::key(ChannelId(3)), "discord:channels:3");
    assert_eq!(CachedRole::key(RoleId(0)), "discord:roles:0");
    assert_eq!(CachedMember::key(GuildId(1), UserId(2)), "discord:m:1:2");
}

#[test]
fn guilds_keep_each_role_once() {
    let g = CachedGuild::from_guild_parts(
        GuildId(1),
        "g".to_string(),
        None,
        None,
        UserId(2),
        vec![RoleId(3), RoleId(4), RoleId(3)],
        vec![ChannelId(5), ChannelId(5)],
    );
    assert_eq!(g.roles, vec![RoleId(3), RoleId(4)]);
    assert_eq!(g.channels, vec![ChannelId(5)]);
    assert_eq!(g.member_count, 0);
}

#[test]
fn licence_forms_are_url_encoded() {
    assert_eq!(activation_form("KEY-1", "my guild"), "license_key=KEY-1&instance_name=my+guild");
    assert_eq!(instance_form("k", "a&b"), "license_key=k&instance_id=a%26b");
    assert_eq!(instance_form("k*-._", "é~"), "license_key=k*-._&instance_id=%C3%A9%7E");
    assert!(is_success(204));
    assert!(!is_success(404));
}

#[test]
fn nickname_templates() {
    let user = PartialUser {
        create_time: None,
        id: RobloxUserId(42),
        name: "bob".to_string(),
        display_name: None,
    };
    let t = Template("{roblox-username} ({roblox-id}) {discord-name} {unknown} {display-name}!".to_string());
    assert_eq!(t.nickname(&user, UserId(7), "disc"), "bob (42) disc {unknown} !");
    let plain = Template("no placeholders".to_string());
    assert_eq!(plain.nickname(&user, UserId(7), "disc"), "no placeholders");
    assert_eq!(Template::default().nickname(&user, UserId(7), "disc"), "bob");
}

#[test]
fn ids_read_from_decimal_text() {
    assert_eq!(parse_id("1234"), Some(1234));
    assert_eq!(parse_id("+7"), Some(7));
    assert_eq!(parse_id("007"), Some(7));
    assert_eq!(parse_id("18446744073709551615"), Some(u64::MAX));
    assert_eq!(parse_id("18446744073709551616"), None);
    assert_eq!(parse_id(""), None);
    assert_eq!(parse_id("+"), None);
    assert_eq!(parse_id("-1"), None);
    assert_eq!(parse_id("12a"), None);
    assert_eq!(parse_id(" 1"), None);
}

#[test]
fn deny_lists_round_trip_through_records() {
    let lists = vec![
        DenyList { id: 1, reason: "r".to_string(), action_type: DenyListActionType::Kick, data: DenyListData::User(RobloxUserId(5)) },
        DenyList { id: 2, reason: "s".to_string(), action_type: DenyListActionType::Ban, data: DenyListData::Group(GroupId(6)) },
        DenyList { id: 3, reason: "t".to_string(), action_type: DenyListActionType::NoAction, data: DenyListData::Custom("R(1) > 2".to_string()) },
    ];
    for list in lists {
        let record = list.to_record();
        assert!(record.is_complete());
        let back = DenyList::from_record(record);
        assert_eq!(back.id, list.id);
        assert_eq!(back.reason, list.reason);
        assert_eq!(back.action_type, list.action_type);
        assert_eq!(back.data, list.data);
    }
    let record = DenyList { id: 2, reason: String::new(), action_type: DenyListActionType::Ban, data: DenyListData::Group(GroupId(6)) }.to_record();
    assert_eq!(record.kind, DenyListType::Group);
    assert_eq!(record.group_id, Some(GroupId(6)));
    assert_eq!(record.user_id, None);
    assert_eq!(record.code, None);
    let incomplete = DenyListRecord { id: 1, reason: String::new(), kind: DenyListType::User, action_type: DenyListActionType::Kick, user_id: None, group_id: Some(GroupId(1)), code: None };
    assert!(!incomplete.is_complete());
}

#[test]
fn ids_written_in_decimal_read_back() {
    for n in [0u64, 9, 10, 1234567, u64::MAX] {
        assert_eq!(parse_id(&decimal_string(n)), Some(n));
    }
}
