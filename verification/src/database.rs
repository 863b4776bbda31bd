//! Errors of the database layer.
use vstd::prelude::*;

use crate::error::ErrorSource;

verus! {

/// An error of the database or of its connection pool, holding its cause. The cause
/// is held in an `Option`, the form in which this crate carries boxed error sources;
/// the service layer always fills it.
pub struct DatabaseError(pub Option<Box<dyn ErrorSource>>);

impl DatabaseError {
    /// The underlying error.
    pub fn into_source(self) -> (s: Option<Box<dyn ErrorSource>>)
        ensures
            s == self.0,
    {
        self.0
    }
}

} // verus!
