//! How the prime service is configured: which backend holds its registries.
use vstd::prelude::*;

verus! {

#[verifier::external_type_specification]
#[verifier::external_body]
pub struct ExPathBuf(std::path::PathBuf);

/// The backend that holds the registries.
#[derive(Debug)]
pub enum RegistryConfig {
    /// In the service's memory, lost at exit.
    Memory,
    /// In an SQLite database file.
    Sqlite { path: std::path::PathBuf },
    /// In a ClickHouse database reached over HTTP.
    Clickhouse { url: String, database: String },
}

} // verus!
