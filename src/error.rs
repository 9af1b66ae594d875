//! Errors of the cache.
use vstd::prelude::*;
use crate::session::BuildStep;

verus! {

/// What went wrong.
#[derive(Debug, PartialEq, Eq)]
pub enum CacheError {
    /// Conflicting or missing options.
    Usage,
    /// An advisory-lock call failed.
    LockIo,
    /// The journal database could not be opened, read or written.
    JournalIo(String),
    /// The journal's schema could not be migrated.
    JournalSchema(String),
    /// A step of building an environment failed.
    Builder(BuildStep),
    /// Creating or removing a directory or file failed.
    Filesystem,
    /// The interpreter could not be launched.
    Launch,
}

} // verus!
