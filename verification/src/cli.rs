//! The command line: the subcommands and their options, as plain values.
use vstd::prelude::*;

verus! {

/// A merge strategy given on the command line.
#[derive(Debug, Clone, Copy, PartialEq, Eq, Structural)]
pub enum MergeStrategyArg {
    Direct,
    FeatureBranch,
    PerTicket,
}

/// The parsed command line.
pub struct Cli {
    pub command: Command,
}

/// A subcommand; each one triggers one workflow.
#[derive(Debug, Clone)]
pub enum Command {
    /// Implement a feature issue and its sub-issues.
    Implement {
        issue_id: u64,
        dry_run: bool,
        max_iterations: Option<u32>,
        merge_strategy: Option<MergeStrategyArg>,
    },
    /// Work through all issues matching a label.
    Clear {
        label: String,
        dry_run: bool,
        max_iterations: Option<u32>,
        merge_strategy: Option<MergeStrategyArg>,
    },
    /// Run the review phase against a completed issue.
    Review { issue_id: u64, dry_run: bool },
    /// Scaffold `.intern/config.toml` and the default prompt files.
    Init { defaults: bool },
}

} // verus!
