use vstd::prelude::*;

use super::arguments::ArgumentError;
use crate::error::ErrorSource;

verus! {

/// Where a framework error came from.
#[derive(Clone, Copy, Debug, PartialEq, Eq, Structural)]
pub enum ErrorKind {
    Cache,
    Command,
    Database,
    Discord,
    Roblox,
}

/// An error while running a command: its kind and, when there is one, the
/// underlying error.
pub struct FrameworkError {
    source: Option<Box<dyn ErrorSource>>,
    kind: ErrorKind,
}

impl FrameworkError {
    pub closed spec fn spec_kind(&self) -> ErrorKind {
        self.kind
    }

    pub closed spec fn spec_source(&self) -> Option<Box<dyn ErrorSource>> {
        self.source
    }

    pub fn kind(&self) -> (k: &ErrorKind)
        ensures
            *k == self.spec_kind(),
    {
        &self.kind
    }

    pub fn into_source(self) -> (s: Option<Box<dyn ErrorSource>>)
        ensures
            s == self.spec_source(),
    {
        self.source
    }

    pub fn into_parts(self) -> (p: (ErrorKind, Option<Box<dyn ErrorSource>>))
        ensures
            p == (self.spec_kind(), self.spec_source()),
    {
        (self.kind, self.source)
    }

    pub fn from_parts(kind: ErrorKind, source: Option<Box<dyn ErrorSource>>) -> (e: Self)
        ensures
            e.spec_kind() == kind,
            e.spec_source() == source,
    {
        FrameworkError { source, kind }
    }

    /// The text that the error's description starts with, naming its kind.
    pub fn prefix(&self) -> (s: &'static str)
        ensures
            s@ == match self.spec_kind() {
                ErrorKind::Cache => "cache error: "@,
                ErrorKind::Command => "command error: "@,
                ErrorKind::Database => "database error: "@,
                ErrorKind::Discord => "discord error: "@,
                ErrorKind::Roblox => "roblox error: "@,
            },
    {
        match self.kind {
            ErrorKind::Cache => "cache error: ",
            ErrorKind::Command => "command error: ",
            ErrorKind::Database => "database error: ",
            ErrorKind::Discord => "discord error: ",
            ErrorKind::Roblox => "roblox error: ",
        }
    }

    /// A command error caused by its arguments.
    pub fn from_argument(err: ArgumentError) -> (e: Self)
        ensures
            e.spec_kind() == ErrorKind::Command,
            e.spec_source() is Some,
    {
        let source: Box<dyn ErrorSource> = Box::new(err);
        FrameworkError { source: Some(source), kind: ErrorKind::Command }
    }
}

/// A framework error is its parts: two errors with the same kind and source
/// are the same error, so putting back together the parts that `into_parts`
/// gives (with `from_parts`) yields the error taken apart.
pub proof fn lemma_framework_error_parts(e1: FrameworkError, e2: FrameworkError)
    requires
        e1.spec_kind() == e2.spec_kind(),
        e1.spec_source() == e2.spec_source(),
    ensures
        e1 == e2,
{
}

} // verus!
