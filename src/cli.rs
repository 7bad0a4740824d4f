//! The commands a caller can ask for, as plain data, and how a yes/no
//! prompt's answer is read.

use vstd::prelude::*;
use crate::text::{lower_of, str_eq, to_lowercase, trim, trim_of};

verus! {

/// A parsed command line.
#[derive(Debug)]
pub struct Cli {
    pub command: Commands,
}

/// What the user asked for.
#[derive(Debug)]
pub enum Commands {
    /// Set up a workspace at `path`.
    Init { path: String },
    /// Clone a repository (URL or `owner/repo`) into the workspace.
    Add { repository: String, output_cd: bool },
    /// Resolve a query to one repository, or the workspace root without one.
    Go { pattern: Option<String>, output_cd: bool },
    List,
    Remove { pattern: String },
    /// Reconcile the matching repositories, or all of them.
    Sync { pattern: Option<String> },
    /// Search the contents of the matching repositories, or all of them.
    Grep { pattern: String, repo_pattern: Option<String> },
    /// Move existing checkouts under `source` into the workspace.
    Migrate { source: String },
    Config { subcommand: ConfigCommands },
    Status,
}

/// What the user asked of the configuration.
#[derive(Debug)]
pub enum ConfigCommands {
    Show,
    SetValue { key: String, value: String },
    GetValue { key: String },
}

/// A prompt's answer agrees: `y` in either case, surrounding whitespace
/// aside.
pub fn is_confirmation(answer: &str) -> (r: bool)
    ensures
        r == (lower_of(trim_of(answer@)) == "y"@),
{
    let trimmed = trim(answer);
    let lowered = to_lowercase(trimmed.as_str());
    str_eq(lowered.as_str(), "y")
}

} // verus!
