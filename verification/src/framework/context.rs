use vstd::prelude::*;

verus! {

/// How a deferred answer to a command will be shown.
#[derive(Clone, Copy, Debug, PartialEq, Eq, Structural)]
pub enum DeferredResponse {
    /// Only to the member who ran the command.
    Ephemeral,
    Normal,
}

impl DeferredResponse {
    /// The message flags of the deferred answer: the ephemeral flag (64) or none.
    pub fn flags(&self) -> (f: Option<u64>)
        ensures
            f == match self {
                DeferredResponse::Ephemeral => Some(64u64),
                DeferredResponse::Normal => None,
            },
    {
        match self {
            DeferredResponse::Ephemeral => Some(64),
            DeferredResponse::Normal => None,
        }
    }
}

} // verus!
