//! Workspace configuration.
use vstd::prelude::*;

verus! {

/// The packages of the workspace, in the order in which they are published.
///
/// The order must follow the dependency graph: a package comes after every
/// package of the workspace that it depends on.
#[derive(Debug, Clone)]
pub struct Config {
    pub packages: Vec<String>,
}

/// Where the configuration is read from.
#[derive(Debug, Clone, Copy, PartialEq, Eq)]
pub enum ConfigSource {
    /// The file given on the command line.
    Explicit,
    /// `Conta.toml` in the current directory.
    DefaultFile,
    /// The `workspace.metadata.conta` table of the manifest in the current
    /// directory.
    Manifest,
}

/// Picks the configuration source: an explicit path that exists, else the
/// default file if it exists, else the manifest's metadata.
pub fn config_source(explicit_exists: bool, default_exists: bool) -> (r: ConfigSource)
    ensures
        explicit_exists ==> r == ConfigSource::Explicit,
        !explicit_exists && default_exists ==> r == ConfigSource::DefaultFile,
        !explicit_exists && !default_exists ==> r == ConfigSource::Manifest,
{
    if explicit_exists {
        ConfigSource::Explicit
    } else if default_exists {
        ConfigSource::DefaultFile
    } else {
        ConfigSource::Manifest
    }
}

} // verus!
