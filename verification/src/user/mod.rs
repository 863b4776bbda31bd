//! Bringing a member's roles and nickname in line with the guild's binds.
pub mod update;
