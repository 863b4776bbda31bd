use rowifi::error::ErrorSource;
use rowifi::framework::arguments::{Argument, Arguments, CommandDataOption, CommandOptionValue};
use rowifi::framework::command::CommandBuilder;
use rowifi::framework::context::DeferredResponse;
use rowifi::framework::error::{ErrorKind, FrameworkError};
use rowifi::framework::{recurse_skip_subcommands, select_subcommand};
use rowifi::framework::utils::{next_page, press_page};
use rowifi::id::{RoleId, UserId};
use rowifi::models::bind::AssetType;
use rowifi::models::deny_list::DenyListActionType;

fn option(name: &str, value: CommandOptionValue) -> CommandDataOption {
    CommandDataOption { name: name.to_string(), value }
}

#[test]
fn subcommand_options_are_read() {
    let inner = vec![option("id", CommandOptionValue::Integer(4))];
    let data = vec![option("add", CommandOptionValue::SubCommand(inner))];
    let skipped = recurse_skip_subcommands(&data);
    assert_eq!(skipped.len(), 1);
    assert_eq!(skipped[0].name, "id");
    let flat = vec![option("id", CommandOptionValue::Integer(4))];
    assert_eq!(recurse_skip_subcommands(&flat).len(), 1);
    assert_eq!(recurse_skip_subcommands(&[]).len(), 0);
}

#[test]
fn options_convert_to_arguments() {
    assert_eq!(u8::from_interaction(&option("n", CommandOptionValue::Integer(300))).ok(), Some(44));
    assert_eq!(u64::from_interaction(&option("n", CommandOptionValue::Role(9))).ok(), Some(9));
    assert_eq!(UserId::from_interaction(&option("u", CommandOptionValue::User(5))).ok(), Some(UserId(5)));
    assert_eq!(
        AssetType::from_interaction(&option("t", CommandOptionValue::Integer(1))).ok(),
        Some(AssetType::Badge)
    );
    assert_eq!(
        DenyListActionType::from_interaction(&option("a", CommandOptionValue::Integer(2))).ok(),
        Some(DenyListActionType::Ban)
    );
    let roles = Vec::<RoleId>::from_interaction(&option("r", CommandOptionValue::String("<@&12> and <@&34>".to_string())));
    assert_eq!(roles.ok(), Some(vec![RoleId(12), RoleId(34)]));
    assert!(<()>::from_interaction(&[]).is_ok());
}

#[test]
fn framework_errors_keep_their_parts() {
    let e = FrameworkError::from_parts(ErrorKind::Database, None);
    assert_eq!(*e.kind(), ErrorKind::Database);
    assert_eq!(e.prefix(), "database error: ");
    let (kind, source) = e.into_parts();
    assert_eq!(kind, ErrorKind::Database);
    assert!(source.is_none());
}

#[test]
fn pages_stay_in_range() {
    assert_eq!(next_page(0, 3, "previous-page"), 0);
    assert_eq!(next_page(1, 3, "next-page"), 2);
    assert_eq!(next_page(2, 3, "next-page"), 2);
    assert_eq!(next_page(1, 3, "first-page"), 0);
    assert_eq!(next_page(0, 3, "last-page"), 2);
    assert_eq!(next_page(1, 3, "other"), 1);
}

#[test]
fn builders_and_flags() {
    let b = CommandBuilder::node();
    assert_eq!(b.name, "");
    assert_eq!(b.name("update").name, "update");
    assert_eq!(DeferredResponse::Ephemeral.flags(), Some(64));
    assert_eq!(DeferredResponse::Normal.flags(), None);
}

#[test]
fn groups_hand_on_to_the_first_known_subcommand() {
    let names = vec!["add".to_string(), "delete".to_string()];
    let data = vec![
        option("flag", CommandOptionValue::Boolean(true)),
        option("view", CommandOptionValue::SubCommand(vec![])),
        option("delete", CommandOptionValue::SubCommandGroup(vec![])),
        option("add", CommandOptionValue::SubCommand(vec![])),
    ];
    assert_eq!(select_subcommand(&data, &names), Some(2));
    let plain = vec![option("add", CommandOptionValue::String("x".to_string()))];
    assert_eq!(select_subcommand(&plain, &names), None);
    assert_eq!(select_subcommand(&[], &names), None);
}

#[test]
fn options_are_tested_before_they_are_read() {
    let int = option("n", CommandOptionValue::Integer(1));
    let text = option("s", CommandOptionValue::String("x".to_string()));
    let big = option("n", CommandOptionValue::Integer(5));
    assert!(<u32 as Argument>::accepts_option(&int));
    assert!(!<u32 as Argument>::accepts_option(&text));
    assert!(<String as Argument>::accepts_option(&text));
    assert!(<AssetType as Argument>::accepts_option(&int));
    assert!(!<AssetType as Argument>::accepts_option(&big));
    assert!(<Option<u8> as Argument>::accepts_option(&int));
    assert!(<() as Arguments>::accepts_options(&[]));
}

#[test]
fn argument_errors_describe_themselves() {
    assert_eq!(rowifi::framework::arguments::ArgumentError::BadArgument.description(), "argument error");
}

#[test]
fn only_the_author_moves_the_pages() {
    assert_eq!(press_page(1, 4, "next-page", 7, 7), (2, false));
    assert_eq!(press_page(1, 4, "next-page", 8, 7), (1, true));
    assert_eq!(press_page(3, 4, "first-page", 7, 7), (0, false));
}
