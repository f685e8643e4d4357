use intern::cli::{Command, MergeStrategyArg};
use intern::config::{AgentConfig, Config, IssueTrackerConfig, RunDefaults, SourceControlConfig};
use intern::github::types::GhIssue;
use intern::traits::{
    CommandRunner, DirtyBehavior, Error, Event, EventSink, JsonDecoder, MergeStrategy, PromptLoader,
};
use intern::workflows::{build_context, build_run_config};

#[derive(Clone)]
struct NoCommands;
impl CommandRunner for NoCommands {
    fn run(&self, program: &str, _args: &[&str]) -> Result<String, Error> {
        Err(Error::Failed(format!("{program} is not available here")))
    }
}

#[derive(Clone)]
struct NoJson;
impl JsonDecoder for NoJson {
    fn decode_plan(&self, _: &str) -> Result<Vec<u64>, String> {
        Err("not supported".to_string())
    }
    fn decode_issue(&self, _: &str) -> Result<GhIssue, String> {
        Err("not supported".to_string())
    }
    fn decode_issues(&self, _: &str) -> Result<Vec<GhIssue>, String> {
        Err("not supported".to_string())
    }
}

struct NoEvents;
impl EventSink for NoEvents {
    fn emit(&self, _: Event) {}
}

struct NoPrompts;
impl PromptLoader for NoPrompts {
    fn load(&self, name: &str) -> Result<String, Error> {
        Err(Error::MissingPrompt(name.to_string()))
    }
}

fn config_with_source_control(sc: SourceControlConfig) -> Config {
    Config {
        issue_tracker: IssueTrackerConfig { kind: "github".into(), repo: "o/r".into() },
        agent: AgentConfig { kind: "local".into(), settings_file: None, command: Some("agent-cli".into()) },
        run: RunDefaults::default(),
        source_control: sc,
        context_file: None,
        work_directory: None,
    }
}

fn github_config() -> Config {
    Config {
        issue_tracker: IssueTrackerConfig { kind: "github".to_string(), repo: "owner/repo".to_string() },
        agent: AgentConfig { kind: "local".to_string(), settings_file: None, command: Some("agent-cli".to_string()) },
        run: RunDefaults::default(),
        source_control: SourceControlConfig::default(),
        context_file: None,
        work_directory: None,
    }
}

fn implement(merge_strategy: Option<MergeStrategyArg>) -> Command {
    Command::Implement { issue_id: 1, dry_run: false, max_iterations: None, merge_strategy }
}

fn implement_command(issue_id: u64) -> Command {
    Command::Implement { issue_id, dry_run: false, max_iterations: None, merge_strategy: None }
}

#[test]
fn build_run_config_reads_merge_strategy_from_source_control() {
    let config = config_with_source_control(SourceControlConfig {
        merge_strategy: "per-ticket".to_string(),
        ..SourceControlConfig::default()
    });
    let run_config = build_run_config(&implement(None), &config, String::new(), ".".to_string());
    assert_eq!(run_config.merge_strategy, MergeStrategy::PerTicket);
}

#[test]
fn build_run_config_reads_base_branch_from_source_control() {
    let config = config_with_source_control(SourceControlConfig {
        base_branch: "develop".to_string(),
        ..SourceControlConfig::default()
    });
    let run_config = build_run_config(&implement(None), &config, String::new(), ".".to_string());
    assert_eq!(run_config.base_branch, "develop");
}

#[test]
fn build_run_config_cli_flag_overrides_config_merge_strategy() {
    let config = config_with_source_control(SourceControlConfig {
        merge_strategy: "feature-branch".to_string(),
        ..SourceControlConfig::default()
    });
    let run_config =
        build_run_config(&implement(Some(MergeStrategyArg::Direct)), &config, String::new(), ".".to_string());
    assert_eq!(run_config.merge_strategy, MergeStrategy::Direct);
}

#[test]
fn build_run_config_uses_defaults_and_resolved_values() {
    let config = github_config();
    let command = Command::Clear {
        label: "ready".to_string(),
        dry_run: true,
        max_iterations: Some(5),
        merge_strategy: None,
    };
    let run_config = build_run_config(&command, &config, "ctx".to_string(), "/work".to_string());
    assert_eq!(run_config.max_iterations, 5);
    assert_eq!(run_config.merge_strategy, MergeStrategy::FeatureBranch);
    assert_eq!(run_config.on_dirty_after_commit, DirtyBehavior::Warn);
    assert_eq!(run_config.on_dirty_no_commits, DirtyBehavior::Fail);
    assert!(run_config.dry_run);
    assert!(!run_config.use_worktree);
    assert_eq!(run_config.repo_context, "ctx");
    assert_eq!(run_config.work_directory, "/work");
}

#[test]
fn build_run_config_falls_back_on_unknown_keys() {
    let config = config_with_source_control(SourceControlConfig {
        merge_strategy: "sideways".to_string(),
        on_dirty_after_commit: "commit".to_string(),
        on_dirty_no_commits: "shrug".to_string(),
        ..SourceControlConfig::default()
    });
    let review = Command::Review { issue_id: 3, dry_run: false };
    let run_config = build_run_config(&review, &config, String::new(), ".".to_string());
    assert_eq!(run_config.merge_strategy, MergeStrategy::FeatureBranch);
    assert_eq!(run_config.on_dirty_after_commit, DirtyBehavior::Commit);
    assert_eq!(run_config.on_dirty_no_commits, DirtyBehavior::Fail);
    assert_eq!(run_config.max_iterations, 100);
}

#[test]
fn run_returns_error_for_unknown_issue_tracker_kind() {
    let mut config = github_config();
    config.issue_tracker.kind = "linear".to_string();

    let result =
        build_context(&implement_command(1), &config, String::new(), ".".to_string(), NoCommands, NoJson, NoEvents, NoPrompts);

    let err = result.err().unwrap();
    assert!(matches!(err, Error::UnknownIssueTrackerKind(_)));
    assert!(err.message().contains("linear"));
}

#[test]
fn run_returns_error_for_unknown_agent_kind() {
    let mut config = github_config();
    config.agent.kind = "docker".to_string();

    let result =
        build_context(&implement_command(1), &config, String::new(), ".".to_string(), NoCommands, NoJson, NoEvents, NoPrompts);

    let err = result.err().unwrap();
    assert!(err.message().contains("docker"));
    assert_eq!(err.message(), "unknown agent.kind: docker");
}

#[test]
fn build_context_needs_the_agent_command() {
    let mut config = github_config();
    config.agent.command = None;

    let result =
        build_context(&implement_command(1), &config, String::new(), ".".to_string(), NoCommands, NoJson, NoEvents, NoPrompts);

    assert!(matches!(result.err().unwrap(), Error::MissingAgentCommand));
}

#[test]
fn build_context_starts_a_fresh_run() {
    let config = github_config();
    let ctx = build_context(&implement_command(1), &config, String::new(), ".".to_string(), NoCommands, NoJson, NoEvents, NoPrompts)
        .ok()
        .unwrap();
    assert_eq!(ctx.iterations_used(), 0);
    assert_eq!(ctx.config().max_iterations, 100);
    assert_eq!(ctx.config().merge_strategy, MergeStrategy::FeatureBranch);
}

#[test]
fn source_control_config_default_matches_the_documented_defaults() {
    let sc = SourceControlConfig::default();
    assert_eq!(sc.kind, "git");
    assert_eq!(sc.base_branch, "main");
    assert_eq!(sc.merge_strategy, "feature-branch");
    assert!(!sc.use_worktree);
    assert_eq!(sc.on_dirty_after_commit, "warn");
    assert_eq!(sc.on_dirty_no_commits, "fail");
    assert_eq!(RunDefaults::default().max_iterations, 100);
}
