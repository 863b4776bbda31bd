//! Adding and deleting rank binds.
use vstd::prelude::*;

pub mod add;
pub mod delete;

verus! {

} // verus!
