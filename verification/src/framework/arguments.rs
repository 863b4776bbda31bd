use twilight_mention::ParseMention;
use vstd::prelude::*;

use crate::error::ErrorSource;
use crate::id::{RoleId, UserId};
use crate::models::audit_log::AuditLogKind;
use crate::models::bind::AssetType;
use crate::models::deny_list::DenyListActionType;
use crate::roblox::id::GroupId;

verus! {

/// One option of an application command as Discord sends it.
#[derive(Debug)]
pub struct CommandDataOption {
    pub name: String,
    pub value: CommandOptionValue,
}

/// The value of a command option. Ids are held as integers; a number option
/// holds the bits of its floating-point value.
#[derive(Debug)]
pub enum CommandOptionValue {
    Attachment(u64),
    Boolean(bool),
    Channel(u64),
    Focused(String),
    Integer(i64),
    Mentionable(u64),
    Number(u64),
    Role(u64),
    String(String),
    SubCommand(Vec<CommandDataOption>),
    SubCommandGroup(Vec<CommandDataOption>),
    User(u64),
}

#[derive(Debug)]
pub enum ArgumentError {
    BadArgument,
}

impl ErrorSource for ArgumentError {
    /// "argument error", the text of the one kind of argument error.
    fn description(&self) -> (s: String)
        ensures
            s@ == "argument error"@,
    {
        "argument error".to_owned()
    }
}

/// The ids of the roles mentioned (`<@&id>`) in `text`, in order
/// (`twilight_mention`'s role mention iterator).
pub uninterp spec fn role_mentions(text: Seq<char>) -> Seq<u64>;

/// Calls `twilight_mention::ParseMention::iter` for role ids on `text` and
/// keeps each mention's id. Claimed: the ids are `role_mentions` of the text.
#[verifier::external_body]
fn parse_role_mentions(text: &str) -> (ids: Vec<u64>)
    ensures
        ids@ == role_mentions(text@),
{
    twilight_model::id::Id::<twilight_model::id::marker::RoleMarker>::iter(text).map(|m| m.0.get()).collect()
}

/// A command's arguments, read from its options.
pub trait Arguments: Sized {
    /// Whether the options hold what the arguments read.
    spec fn accepts_all(options: Seq<CommandDataOption>) -> bool;

    fn from_interaction(options: &[CommandDataOption]) -> (r: Result<Self, ArgumentError>)
        requires
            Self::accepts_all(options@),
    ;

    /// Tests `accepts_all`, so that callers can tell the options apart before reading them.
    fn accepts_options(options: &[CommandDataOption]) -> (r: bool)
        ensures
            r == Self::accepts_all(options@),
    ;
}

/// One argument, read from one option.
pub trait Argument: Sized {
    /// Whether the option holds a value of the kind the argument reads.
    spec fn accepts(option: CommandDataOption) -> bool;

    fn from_interaction(option: &CommandDataOption) -> (r: Result<Self, ArgumentError>)
        requires
            Self::accepts(*option),
    ;

    /// Tests `accepts`, so that callers can tell the option apart before reading it.
    fn accepts_option(option: &CommandDataOption) -> (r: bool)
        ensures
            r == Self::accepts(*option),
    ;
}

impl Arguments for () {
    open spec fn accepts_all(options: Seq<CommandDataOption>) -> bool {
        true
    }

    fn accepts_options(options: &[CommandDataOption]) -> (r: bool) {
        true
    }

    fn from_interaction(options: &[CommandDataOption]) -> (r: Result<Self, ArgumentError>)
        ensures
            r is Ok,
    {
        Ok(())
    }
}

impl<T: Arguments> Arguments for (T,) {
    open spec fn accepts_all(options: Seq<CommandDataOption>) -> bool {
        T::accepts_all(options)
    }

    fn accepts_options(options: &[CommandDataOption]) -> (r: bool) {
        T::accepts_options(options)
    }

    fn from_interaction(options: &[CommandDataOption]) -> (r: Result<Self, ArgumentError>)
        ensures
            match r {
                Ok(t) => call_ensures(T::from_interaction, (options,), Ok::<T, ArgumentError>(t.0)),
                Err(e) => call_ensures(T::from_interaction, (options,), Err::<T, ArgumentError>(e)),
            },
    {
        match T::from_interaction(options) {
            Ok(a) => Ok((a,)),
            Err(err) => Err(err),
        }
    }
}

impl<T: Argument> Argument for Option<T> {
    open spec fn accepts(option: CommandDataOption) -> bool {
        T::accepts(option)
    }

    fn accepts_option(option: &CommandDataOption) -> (r: bool) {
        T::accepts_option(option)
    }

    /// The argument, `None` when reading it failed.
    fn from_interaction(option: &CommandDataOption) -> (r: Result<Self, ArgumentError>)
        ensures
            r matches Ok(v) && match v {
                Some(t) => call_ensures(T::from_interaction, (option,), Ok::<T, ArgumentError>(t)),
                None => exists|e: ArgumentError| call_ensures(T::from_interaction, (option,), Err::<T, ArgumentError>(e)),
            },
    {
        let r = T::from_interaction(option);
        match r {
            Ok(t) => Ok(Some(t)),
            Err(e) => {
                assert(call_ensures(T::from_interaction, (option,), Err::<T, ArgumentError>(e)));
                Ok(None)
            },
        }
    }
}

impl Argument for UserId {
    open spec fn accepts(option: CommandDataOption) -> bool {
        option.value is Integer || option.value is User
    }

    fn accepts_option(option: &CommandDataOption) -> (r: bool) {
        match &option.value {
            CommandOptionValue::Integer(_) => true,
            CommandOptionValue::User(_) => true,
            _ => false,
        }
    }

    /// A user given by id, or an integer read as an id.
    fn from_interaction(option: &CommandDataOption) -> (r: Result<Self, ArgumentError>)
        ensures
            r == Ok::<UserId, ArgumentError>(
                match option.value {
                    CommandOptionValue::Integer(v) => UserId(v as u64),
                    CommandOptionValue::User(v) => UserId(v),
                    _ => UserId(0),
                },
            ),
    {
        match &option.value {
            CommandOptionValue::Integer(value) => Ok(UserId::new(*value as u64)),
            CommandOptionValue::User(value) => Ok(UserId(*value)),
            _ => Ok(UserId(0)),
        }
    }
}

impl Argument for u8 {
    open spec fn accepts(option: CommandDataOption) -> bool {
        option.value is Integer
    }

    fn accepts_option(option: &CommandDataOption) -> (r: bool) {
        match &option.value {
            CommandOptionValue::Integer(_) => true,
            _ => false,
        }
    }

    /// An integer, cut to its low 8 bits.
    fn from_interaction(option: &CommandDataOption) -> (r: Result<Self, ArgumentError>)
        ensures
            r == Ok::<u8, ArgumentError>((option.value->Integer_0) as u8),
    {
        match &option.value {
            CommandOptionValue::Integer(value) => Ok(#[verifier::truncate] (*value as u8)),
            _ => Ok(0),
        }
    }
}

impl Argument for u32 {
    open spec fn accepts(option: CommandDataOption) -> bool {
        option.value is Integer
    }

    fn accepts_option(option: &CommandDataOption) -> (r: bool) {
        match &option.value {
            CommandOptionValue::Integer(_) => true,
            _ => false,
        }
    }

    /// An integer, cut to its low 32 bits.
    fn from_interaction(option: &CommandDataOption) -> (r: Result<Self, ArgumentError>)
        ensures
            r == Ok::<u32, ArgumentError>((option.value->Integer_0) as u32),
    {
        match &option.value {
            CommandOptionValue::Integer(value) => Ok(#[verifier::truncate] (*value as u32)),
            _ => Ok(0),
        }
    }
}

impl Argument for u64 {
    open spec fn accepts(option: CommandDataOption) -> bool {
        option.value is Integer || option.value is Role
    }

    fn accepts_option(option: &CommandDataOption) -> (r: bool) {
        match &option.value {
            CommandOptionValue::Integer(_) => true,
            CommandOptionValue::Role(_) => true,
            _ => false,
        }
    }

    /// An integer read as unsigned, or a role's id.
    fn from_interaction(option: &CommandDataOption) -> (r: Result<Self, ArgumentError>)
        ensures
            r == Ok::<u64, ArgumentError>(
                match option.value {
                    CommandOptionValue::Integer(v) => v as u64,
                    CommandOptionValue::Role(v) => v,
                    _ => 0,
                },
            ),
    {
        match &option.value {
            CommandOptionValue::Integer(value) => Ok(#[verifier::truncate] (*value as u64)),
            CommandOptionValue::Role(value) => Ok(*value),
            _ => Ok(0),
        }
    }
}

impl Argument for i32 {
    open spec fn accepts(option: CommandDataOption) -> bool {
        option.value is Integer
    }

    fn accepts_option(option: &CommandDataOption) -> (r: bool) {
        match &option.value {
            CommandOptionValue::Integer(_) => true,
            _ => false,
        }
    }

    /// An integer, cut to its low 32 bits.
    fn from_interaction(option: &CommandDataOption) -> (r: Result<Self, ArgumentError>)
        ensures
            r == Ok::<i32, ArgumentError>((option.value->Integer_0) as i32),
    {
        match &option.value {
            CommandOptionValue::Integer(value) => Ok(#[verifier::truncate] (*value as i32)),
            _ => Ok(0),
        }
    }
}

impl Argument for String {
    open spec fn accepts(option: CommandDataOption) -> bool {
        option.value is String
    }

    fn accepts_option(option: &CommandDataOption) -> (r: bool) {
        match &option.value {
            CommandOptionValue::String(_) => true,
            _ => false,
        }
    }

    fn from_interaction(option: &CommandDataOption) -> (r: Result<Self, ArgumentError>)
        ensures
            r matches Ok(s) && s@ == (option.value->String_0)@,
    {
        match &option.value {
            CommandOptionValue::String(value) => Ok(value.clone()),
            _ => Ok(String::new()),
        }
    }
}

impl Argument for Vec<RoleId> {
    open spec fn accepts(option: CommandDataOption) -> bool {
        option.value is String
    }

    fn accepts_option(option: &CommandDataOption) -> (r: bool) {
        match &option.value {
            CommandOptionValue::String(_) => true,
            _ => false,
        }
    }

    /// The roles mentioned in a string, in order.
    fn from_interaction(option: &CommandDataOption) -> (r: Result<Self, ArgumentError>)
        ensures
            r matches Ok(roles) && roles@ == role_mentions((option.value->String_0)@).map_values(
                |id: u64| RoleId(id),
            ),
    {
        let text = match &option.value {
            CommandOptionValue::String(value) => value.as_str(),
            _ => "",
        };
        let ids = parse_role_mentions(text);
        let mut roles: Vec<RoleId> = Vec::new();
        let mut i: usize = 0;
        while i < ids.len()
            invariant
                i <= ids@.len(),
                roles@ == ids@.take(i as int).map_values(|id: u64| RoleId(id)),
            decreases ids@.len() - i,
        {
            roles.push(RoleId(ids[i]));
            assert(ids@.take(i + 1).map_values(|id: u64| RoleId(id)) =~= ids@.take(i as int).map_values(
                |id: u64| RoleId(id),
            ).push(RoleId(ids@[i as int])));
            i = i + 1;
        }
        assert(ids@.take(i as int) =~= ids@);
        Ok(roles)
    }
}

impl Argument for AssetType {
    open spec fn accepts(option: CommandDataOption) -> bool {
        option.value matches CommandOptionValue::Integer(v) && 0 <= v <= 2
    }

    fn accepts_option(option: &CommandDataOption) -> (r: bool) {
        match &option.value {
            CommandOptionValue::Integer(v) => 0 <= *v && *v <= 2,
            _ => false,
        }
    }

    /// 0 for an asset, 1 for a badge, 2 for a gamepass.
    fn from_interaction(option: &CommandDataOption) -> (r: Result<Self, ArgumentError>)
        ensures
            r == Ok::<AssetType, ArgumentError>(
                if option.value->Integer_0 == 0 {
                    AssetType::Asset
                } else if option.value->Integer_0 == 1 {
                    AssetType::Badge
                } else {
                    AssetType::Gamepass
                },
            ),
    {
        match &option.value {
            CommandOptionValue::Integer(0) => Ok(AssetType::Asset),
            CommandOptionValue::Integer(1) => Ok(AssetType::Badge),
            _ => Ok(AssetType::Gamepass),
        }
    }
}

impl Argument for DenyListActionType {
    open spec fn accepts(option: CommandDataOption) -> bool {
        option.value matches CommandOptionValue::Integer(v) && 0 <= v <= 2
    }

    fn accepts_option(option: &CommandDataOption) -> (r: bool) {
        match &option.value {
            CommandOptionValue::Integer(v) => 0 <= *v && *v <= 2,
            _ => false,
        }
    }

    /// 0 for no action, 1 for a kick, 2 for a ban.
    fn from_interaction(option: &CommandDataOption) -> (r: Result<Self, ArgumentError>)
        ensures
            r == Ok::<DenyListActionType, ArgumentError>(
                if option.value->Integer_0 == 0 {
                    DenyListActionType::NoAction
                } else if option.value->Integer_0 == 1 {
                    DenyListActionType::Kick
                } else {
                    DenyListActionType::Ban
                },
            ),
    {
        match &option.value {
            CommandOptionValue::Integer(0) => Ok(DenyListActionType::NoAction),
            CommandOptionValue::Integer(1) => Ok(DenyListActionType::Kick),
            _ => Ok(DenyListActionType::Ban),
        }
    }
}

impl Argument for RoleId {
    open spec fn accepts(option: CommandDataOption) -> bool {
        option.value is Role
    }

    fn accepts_option(option: &CommandDataOption) -> (r: bool) {
        match &option.value {
            CommandOptionValue::Role(_) => true,
            _ => false,
        }
    }

    fn from_interaction(option: &CommandDataOption) -> (r: Result<Self, ArgumentError>)
        ensures
            r == Ok::<RoleId, ArgumentError>(RoleId(option.value->Role_0)),
    {
        match &option.value {
            CommandOptionValue::Role(role) => Ok(RoleId(*role)),
            _ => Ok(RoleId(0)),
        }
    }
}

impl Argument for GroupId {
    open spec fn accepts(option: CommandDataOption) -> bool {
        option.value is Integer
    }

    fn accepts_option(option: &CommandDataOption) -> (r: bool) {
        match &option.value {
            CommandOptionValue::Integer(_) => true,
            _ => false,
        }
    }

    /// An integer read as an unsigned group id.
    fn from_interaction(option: &CommandDataOption) -> (r: Result<Self, ArgumentError>)
        ensures
            r == Ok::<GroupId, ArgumentError>(GroupId((option.value->Integer_0) as u64)),
    {
        match &option.value {
            CommandOptionValue::Integer(group) => Ok(GroupId(#[verifier::truncate] (*group as u64))),
            _ => Ok(GroupId(0)),
        }
    }
}

impl Argument for bool {
    open spec fn accepts(option: CommandDataOption) -> bool {
        option.value is Boolean
    }

    fn accepts_option(option: &CommandDataOption) -> (r: bool) {
        match &option.value {
            CommandOptionValue::Boolean(_) => true,
            _ => false,
        }
    }

    fn from_interaction(option: &CommandDataOption) -> (r: Result<Self, ArgumentError>)
        ensures
            r == Ok::<bool, ArgumentError>(option.value->Boolean_0),
    {
        match &option.value {
            CommandOptionValue::Boolean(b) => Ok(*b),
            _ => Ok(false),
        }
    }
}

impl Argument for AuditLogKind {
    open spec fn accepts(option: CommandDataOption) -> bool {
        option.value matches CommandOptionValue::Integer(v) && AuditLogKind::spec_from_number(
            (v as u32) as int,
        ) is Some
    }

    fn accepts_option(option: &CommandDataOption) -> (r: bool) {
        match &option.value {
            CommandOptionValue::Integer(v) => AuditLogKind::from_number(#[verifier::truncate] (*v as u32)).is_some(),
            _ => false,
        }
    }

    /// The audit log kind numbered by an integer (cut to 32 bits).
    fn from_interaction(option: &CommandDataOption) -> (r: Result<Self, ArgumentError>)
        ensures
            r == Ok::<AuditLogKind, ArgumentError>(
                AuditLogKind::spec_from_number(((option.value->Integer_0) as u32) as int)->0,
            ),
    {
        match &option.value {
            CommandOptionValue::Integer(kind) => match AuditLogKind::from_number(#[verifier::truncate] (*kind as u32)) {
                Some(k) => Ok(k),
                None => Ok(AuditLogKind::BindCreate),
            },
            _ => Ok(AuditLogKind::BindCreate),
        }
    }
}

} // verus!
