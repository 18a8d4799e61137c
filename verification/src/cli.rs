//! The command-line surface as plain data: the three subcommands and
//! their options. Argument parsing itself happens outside the library;
//! these types carry what was parsed into the scan logic.

use vstd::prelude::*;

verus! {

/// The whole invocation: one subcommand, or the default scan.
pub struct Cli {
    pub command: Option<Commands>,
}

/// The three subcommands.
pub enum Commands {
    /// Scan servers, verify entities, record fingerprints.
    Scan(ScanArgs),
    /// Report entities without verification or state mutation.
    Inspect(InspectArgs),
    /// Show or amend the whitelist of trusted fingerprints.
    Whitelist(WhitelistArgs),
}

/// Options every subcommand takes: where state is stored and where
/// verification questions go.
pub struct CommonArgs {
    pub storage_file: String,
    pub base_url: String,
    pub llm_api_key: Option<String>,
    pub llm_api_url: Option<String>,
}

/// Options of a full scan.
pub struct ScanArgs {
    pub common: CommonArgs,
    pub server_timeout: i64,
    pub suppress_mcpserver_io: bool,
    pub checks_per_server: i64,
    pub files: Vec<String>,
}

/// Options of an inspection.
pub struct InspectArgs {
    pub common: CommonArgs,
    pub server_timeout: i64,
    pub languages: Option<String>,
    pub files: Vec<String>,
}

/// Options of whitelist management.
pub struct WhitelistArgs {
    pub common: CommonArgs,
    pub reset: bool,
    pub local_only: bool,
    pub entity_type: Option<String>,
    pub entity_name: Option<String>,
    pub entity_hash: Option<String>,
}

} // verus!
