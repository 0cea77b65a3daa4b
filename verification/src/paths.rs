//! Locations of the on-disk state: the configuration file and the usage
//! log.  Which directories the platform offers is environment-dependent
//! and comes through trusted calls; the file names and the error handling
//! are the library's.

use vstd::prelude::*;

verus! {

/// Why a path could not be resolved.
#[derive(Debug, Clone, Copy, PartialEq, Eq, Structural)]
pub enum PathError {
    /// No home directory could be determined for this process.
    NoHomeDirectory,
}

impl PathError {
    /// A short description for logs.
    pub fn message(&self) -> (r: &'static str)
        ensures
            r@ == "cannot determine home directory"@,
    {
        "cannot determine home directory"
    }
}

#[verifier::external_type_specification]
#[verifier::external_body]
pub struct ExPathBuf(std::path::PathBuf);

/// Relies on directories::ProjectDirs::from: the platform's configuration
/// directory for this application, or `None` when no home directory
/// exists.  The value depends on the environment; nothing is assumed.
#[verifier::external_body]
fn project_config_dir() -> Option<std::path::PathBuf> {
    directories::ProjectDirs::from("", "", "g-type").map(|p| p.config_dir().to_path_buf())
}

/// Relies on directories::ProjectDirs::from: the platform's data
/// directory for this application, or `None` when no home directory
/// exists.  The value depends on the environment; nothing is assumed.
#[verifier::external_body]
fn project_data_dir() -> Option<std::path::PathBuf> {
    directories::ProjectDirs::from("", "", "g-type").map(|p| p.data_dir().to_path_buf())
}

/// Relies on std::path::PathBuf::join to append one file name to a
/// directory path.
#[verifier::external_body]
fn join_path(base: std::path::PathBuf, name: &str) -> std::path::PathBuf {
    base.join(name)
}

/// Full path to the configuration file, `config.toml` in the platform's
/// configuration directory.  Fails exactly when no home directory exists.
pub fn config_path() -> Result<std::path::PathBuf, PathError> {
    match project_config_dir() {
        Some(dir) => Ok(join_path(dir, "config.toml")),
        None => Err(PathError::NoHomeDirectory),
    }
}

/// Full path to the usage log, `usage.jsonl` in the platform's data
/// directory.  Fails exactly when no home directory exists.
pub fn tracking_file_path() -> Result<std::path::PathBuf, PathError> {
    match project_data_dir() {
        Some(dir) => Ok(join_path(dir, "usage.jsonl")),
        None => Err(PathError::NoHomeDirectory),
    }
}

} // verus!
