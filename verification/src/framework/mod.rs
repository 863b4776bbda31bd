//! The command framework: reading a command's options into typed arguments,
//! its errors, command building blocks and page navigation.
pub mod arguments;
pub mod command;
pub mod context;
pub mod error;
pub mod utils;

use vstd::prelude::*;

use self::arguments::{CommandDataOption, CommandOptionValue};
use crate::text::str_eq;

verus! {

/// The options a command's handler reads: those of the subcommand (or
/// subcommand group) when the first option is one, else the options as given.
pub open spec fn skip_subcommands(data: Seq<CommandDataOption>) -> Seq<CommandDataOption> {
    if data.len() > 0 {
        match data[0].value {
            CommandOptionValue::SubCommand(options) => options@,
            CommandOptionValue::SubCommandGroup(options) => options@,
            _ => data,
        }
    } else {
        data
    }
}

/// The options a command's handler reads (see [`skip_subcommands`]).
pub fn recurse_skip_subcommands(data: &[CommandDataOption]) -> (r: &[CommandDataOption])
    ensures
        r@ == skip_subcommands(data@),
{
    if data.len() > 0 {
        match &data[0].value {
            CommandOptionValue::SubCommand(options) => return options.as_slice(),
            CommandOptionValue::SubCommandGroup(options) => return options.as_slice(),
            _ => return data,
        }
    }
    data
}

/// An option that opens a subcommand or a subcommand group.
pub open spec fn opens_subcommand(option: CommandDataOption) -> bool {
    option.value is SubCommand || option.value is SubCommandGroup
}

fn option_opens_subcommand(option: &CommandDataOption) -> (r: bool)
    ensures
        r == opens_subcommand(*option),
{
    match &option.value {
        CommandOptionValue::SubCommand(_) => true,
        CommandOptionValue::SubCommandGroup(_) => true,
        _ => false,
    }
}

/// Option `i` opens a subcommand that the group has by name.
pub open spec fn routes_at(data: Seq<CommandDataOption>, names: Seq<String>, i: int) -> bool {
    &&& 0 <= i < data.len()
    &&& opens_subcommand(data[i])
    &&& exists|j: int| 0 <= j < names.len() && #[trigger] names[j]@ == data[i].name@
}

/// The option through which a command group hands a request on: the first that opens a
/// subcommand the group has. A group hands on nothing when there is none.
pub fn select_subcommand(data: &[CommandDataOption], names: &[String]) -> (r: Option<usize>)
    ensures
        r matches Some(i) ==> routes_at(data@, names@, i as int)
            && forall|k: int| 0 <= k < i ==> !routes_at(data@, names@, k),
        r is None ==> forall|k: int| !routes_at(data@, names@, k),
{
    let mut i: usize = 0;
    while i < data.len()
        invariant
            i <= data.len(),
            forall|k: int| 0 <= k < i ==> !routes_at(data@, names@, k),
        decreases data.len() - i,
    {
        if option_opens_subcommand(&data[i]) {
            let mut j: usize = 0;
            while j < names.len()
                invariant
                    i < data.len(),
                    j <= names.len(),
                    opens_subcommand(data@[i as int]),
                    forall|k: int| 0 <= k < i ==> !routes_at(data@, names@, k),
                    forall|m: int| 0 <= m < j ==> names@[m]@ != data@[i as int].name@,
                decreases names.len() - j,
            {
                if str_eq(names[j].as_str(), data[i].name.as_str()) {
                    assert(names@[j as int]@ == data@[i as int].name@);
                    return Some(i);
                }
                j += 1;
            }
        }
        i += 1;
    }
    None
}

} // verus!
