//! Logging events and managing a guild's event types.
pub mod new;
pub mod types;
