//! Bumps the shared version of a workspace manifest and publishes its
//! packages in dependency order.

pub mod command;
pub mod config;
pub mod error;
pub mod manifest;
pub mod publish;
pub mod version;

pub use crate::config::Config;
pub use crate::error::ContaError;
pub use crate::version::{Bump, SemVer, SemVerView};
