//! The configuration file, as plain values.
use vstd::prelude::*;

verus! {

broadcast use vstd::string::group_string_axioms;

/// The contents of `.intern/config.toml`.
#[derive(Debug)]
pub struct Config {
    pub issue_tracker: IssueTrackerConfig,
    pub agent: AgentConfig,
    pub run: RunDefaults,
    pub source_control: SourceControlConfig,
    pub context_file: Option<String>,
    pub work_directory: Option<String>,
}

#[derive(Debug)]
pub struct IssueTrackerConfig {
    /// Adapter kind — currently only "github" is supported.
    pub kind: String,
    /// Repository in "owner/repo" format.
    pub repo: String,
}

#[derive(Debug)]
pub struct AgentConfig {
    /// Runner kind — currently only "local" is supported.
    pub kind: String,
    /// Path to the agent's settings file passed via --settings.
    pub settings_file: Option<String>,
    /// The command-line tool a `local` agent runs as.
    pub command: Option<String>,
}

#[derive(Debug)]
pub struct SourceControlConfig {
    pub kind: String,
    pub base_branch: String,
    pub merge_strategy: String,
    pub use_worktree: bool,
    pub on_dirty_after_commit: String,
    pub on_dirty_no_commits: String,
}

impl Default for SourceControlConfig {
    /// The `[source_control]` section when the file leaves it out.
    fn default() -> (r: Self)
        ensures
            r.kind@ == "git"@,
            r.base_branch@ == "main"@,
            r.merge_strategy@ == "feature-branch"@,
            r.use_worktree == false,
            r.on_dirty_after_commit@ == "warn"@,
            r.on_dirty_no_commits@ == "fail"@,
    {
        SourceControlConfig {
            kind: "git".to_string(),
            base_branch: "main".to_string(),
            merge_strategy: "feature-branch".to_string(),
            use_worktree: false,
            on_dirty_after_commit: "warn".to_string(),
            on_dirty_no_commits: "fail".to_string(),
        }
    }
}

#[derive(Debug)]
pub struct RunDefaults {
    pub max_iterations: u32,
}

impl Default for RunDefaults {
    /// The `[run]` section when the file leaves it out.
    fn default() -> (r: Self)
        ensures
            r.max_iterations == 100,
    {
        RunDefaults { max_iterations: 100 }
    }
}

} // verus!
