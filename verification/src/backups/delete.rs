use vstd::prelude::*;

verus! {

pub struct BackupArguments {
    pub name: String,
}

/// Whether deleting the backup removed anything, given the number of stored
/// backups that the deletion removed.
pub fn delete_backup(rows_removed: u64) -> (deleted: bool)
    ensures
        deleted == (rows_removed > 0),
{
    rows_removed > 0
}

} // verus!
