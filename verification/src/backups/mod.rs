//! Saving a guild's configuration under a name, restoring it, and deleting
//! saved backups.
pub mod delete;
pub mod new;
pub mod restore;
