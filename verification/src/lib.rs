//! Worktree management library: name resolution, validation, configuration
//! merging, hook planning, port allocation, tagging and VCS output parsing.
pub mod text;
pub mod strmap;
pub mod error;
pub mod fuzzy;
pub mod validation;
pub mod config;
pub mod paths;
pub mod vcs;
pub mod hooks;
pub mod tags;
pub mod docker;
pub mod env;
pub mod monitoring;
pub mod snapshot;
pub mod state;
pub mod versions;
pub mod templates;
pub mod cache;
pub mod commands;
pub mod shares;
pub mod git;
pub mod each;
pub mod merge;
pub mod suggestions;
pub mod workspace;
pub mod stats;
pub mod listing;
