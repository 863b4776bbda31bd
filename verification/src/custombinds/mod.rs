//! The custom bind language: a small expression grammar over group ranks,
//! roles and usernames.
use vstd::prelude::*;

pub mod parser;
pub mod evaluate;
pub mod add;
pub mod delete;

verus! {

} // verus!
