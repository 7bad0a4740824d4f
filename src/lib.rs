//! Tracks checked-out repositories under one workspace root: a registry of
//! repository records, a fuzzy resolver from short queries to candidates, an
//! interactive chooser among tied candidates, and the reconciliation of each
//! checkout against its remote from the version-control tool's output.

pub mod error;
pub mod text;
pub mod time;
pub mod paths;
pub mod registry;
pub mod search;
pub mod selector;
pub mod config;
pub mod git;
pub mod reconcile;
pub mod cli;
pub mod report;
pub mod grep;
