//! Hub configuration, as plain data. Reading and parsing the TOML file is the
//! daemon's business; it fills these structures.

use vstd::prelude::*;

verus! {

/// The whole hub configuration.
#[derive(Debug, Clone)]
pub struct HubConfig {
    pub hub: HubSection,
    pub radio: RadioSection,
    pub buffer: BufferSection,
    pub cloud: CloudSection,
    pub admin: AdminSection,
}

/// The hub's own identity.
#[derive(Debug, Clone)]
pub struct HubSection {
    pub identity: String,
}

/// Which radio backend to use, and its serial settings.
#[derive(Debug, Clone)]
pub struct RadioSection {
    pub backend: String,
    pub device: Option<String>,
    pub baud: Option<u32>,
}

/// Where the offline buffer lives.
#[derive(Debug, Clone)]
pub struct BufferSection {
    /// Path of the SQLite file.
    pub sqlite_path: String,
}

/// The TerraTactics cloud connection.
#[derive(Debug, Clone)]
pub struct CloudSection {
    pub enabled: bool,
    pub broker_url: Option<String>,
    pub client_id: Option<String>,
}

/// The local admin HTTP server.
#[derive(Debug, Clone)]
pub struct AdminSection {
    pub bind: String,
}

} // verus!
