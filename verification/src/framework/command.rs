use vstd::prelude::*;

verus! {

pub enum CommandType {
    Group,
    Node,
}

pub struct CommandBuilder;

/// A command that runs a handler, while its name is being set.
pub struct CommandNodeBuilder {
    pub name: String,
}

impl CommandBuilder {
    /// A command node with no name yet.
    pub fn node() -> (b: CommandNodeBuilder)
        ensures
            b.name@ == Seq::<char>::empty(),
    {
        CommandNodeBuilder { name: String::new() }
    }
}

impl CommandNodeBuilder {
    /// Sets the name of the command.
    pub fn name(self, name: &str) -> (b: CommandNodeBuilder)
        ensures
            b.name@ == name@,
    {
        CommandNodeBuilder { name: name.to_owned() }
    }
}

} // verus!
