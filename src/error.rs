//! Errors of the library.
use vstd::prelude::*;

verus! {

/// Why a command failed.
#[derive(Debug, Clone, PartialEq, Eq)]
pub enum ContaError {
    /// A malformed version string or manifest; holds the offending text.
    Parse(String),
    /// The manifest has no `workspace.package.version` string.
    VersionMissing,
    /// The manifest has no `workspace.dependencies` table.
    DependenciesMissing,
    /// A configured package is not a key of the dependency table.
    UnknownPackage(String),
    /// A configured package's dependency entry is not a table, so it has no
    /// version field to set.
    DependencyNotTable(String),
    /// The bumped component is already the largest value it can hold.
    Overflow,
}

} // verus!
