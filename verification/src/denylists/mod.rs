//! Adding and deleting deny lists.
use vstd::prelude::*;

pub mod add;
pub mod delete;

verus! {

} // verus!
