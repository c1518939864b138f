//! Configuration model of the surrounding service: the pieces the library's
//! callers fill from their configuration source.

use vstd::prelude::*;

verus! {

/// File locations used by the surrounding service.
#[derive(Clone)]
pub struct Files {
    /// Directory for the response cache.
    pub cache_dir: String,
}

/// Logging choices of the surrounding service; the level is carried as its
/// textual name.
#[derive(Clone)]
pub struct General {
    /// Path of the log file.
    pub log_path: String,
    /// Name of the least severe level to log.
    pub log_level: String,
    /// Whether to echo log lines to standard output.
    pub log_to_stdout: bool,
}

/// Listening address of the surrounding web layer.
#[derive(Clone)]
pub struct WebServerParameters {
    /// Address to bind.
    pub bind_address: String,
    /// Port to bind.
    pub bind_port: u16,
}

} // verus!
