//! Settings of actions that take some.
use vstd::prelude::*;

use crate::id::ChannelId;

verus! {

/// Sends `message` to `channel`, with `{input}` placeholders filled in.
#[derive(Clone, Debug)]
pub struct SendMessage {
    pub message: String,
    pub channel: ChannelId,
}

} // verus!
