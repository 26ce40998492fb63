//! Where the storage's database lives, and which configurations may be opened.

use vstd::prelude::*;

verus! {

/// Storage configuration for Turso.
#[derive(Debug, PartialEq, Eq)]
pub enum TursoConfig {
    /// Local file database
    Local { path: String },
    /// Remote database
    Remote { url: String, token: String },
    /// Embedded replica (local file + remote sync); no longer supported: opening it fails
    EmbeddedReplica { path: String, url: String, token: String },
}

/// Why a configuration is refused before anything is opened.
#[derive(Clone, Copy, Debug, PartialEq, Eq, Structural)]
pub enum ConfigError {
    /// An embedded replica (a local file synced with a remote database) was asked for;
    /// Turso is used in remote mode only.
    EmbeddedReplica,
    /// A remote database was asked for without a URL.
    EmptyUrl,
    /// A remote database was asked for without an auth token.
    EmptyToken,
}

/// The reason a configuration is refused, if it is: an embedded replica is never opened,
/// and a remote database needs both a URL and a token.
pub open spec fn config_error(config: TursoConfig) -> Option<ConfigError> {
    match config {
        TursoConfig::Local { .. } => None,
        TursoConfig::Remote { url, token } => if url@.len() == 0 {
            Some(ConfigError::EmptyUrl)
        } else if token@.len() == 0 {
            Some(ConfigError::EmptyToken)
        } else {
            None
        },
        TursoConfig::EmbeddedReplica { .. } => Some(ConfigError::EmbeddedReplica),
    }
}

/// Checks that a configuration may be opened: fails exactly for an embedded replica and
/// for a remote database whose URL or token is empty (the URL is looked at first).
pub fn check_config(config: &TursoConfig) -> (res: Result<(), ConfigError>)
    ensures
        match config_error(*config) {
            Some(e) => res == Err::<(), ConfigError>(e),
            None => res is Ok,
        },
{
    match config {
        TursoConfig::Local { .. } => Ok(()),
        TursoConfig::Remote { url, token } => {
            if url.as_str().is_empty() {
                Err(ConfigError::EmptyUrl)
            } else if token.as_str().is_empty() {
                Err(ConfigError::EmptyToken)
            } else {
                Ok(())
            }
        },
        TursoConfig::EmbeddedReplica { .. } => Err(ConfigError::EmbeddedReplica),
    }
}

} // verus!
