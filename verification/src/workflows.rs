//! Workflows: what each subcommand does, and how a run is set up from the
//! configuration.
use vstd::prelude::*;
use crate::actions::agent::{
    diff_action_ran, feature_review, findings_tag, in_scope_findings_tag, review,
};
use crate::behaviors::{carry_issue, execute_ordered, issue_ran, ordered_ran};
use crate::cli::{Command, MergeStrategyArg};
use crate::config::Config;
use crate::context::{Call, Context};
use crate::git::GitClient;
use crate::github::GithubAdapter;
use crate::laws::{ended_by, lemma_diff_action_laws, lemma_laws_empty, lemma_laws_push, run_laws};
use crate::runner::LocalRunner;
use crate::runner::local::settings_view;
use crate::text::{contains, str_eq};
use crate::traits::{
    AgentOutput, AgentRunner, CommandRunner, DirtyBehavior, Error, EventSink, IssueTracker, IssueType,
    JsonDecoder, MergeStrategy, PromptLoader, RemoteClient, RunConfig, SourceControl,
};

verus! {

broadcast use vstd::string::group_string_axioms;

/// Whether the command asks for a dry run.
pub open spec fn dry_run_of(command: Command) -> bool {
    match command {
        Command::Implement { dry_run, .. } => dry_run,
        Command::Clear { dry_run, .. } => dry_run,
        Command::Review { dry_run, .. } => dry_run,
        Command::Init { .. } => false,
    }
}

/// The invocation budget the command line asks for, if any.
pub open spec fn max_iterations_of(command: Command) -> Option<u32> {
    match command {
        Command::Implement { max_iterations, .. } => max_iterations,
        Command::Clear { max_iterations, .. } => max_iterations,
        _ => None,
    }
}

/// The merge strategy the command line asks for, if any.
pub open spec fn strategy_arg_of(command: Command) -> Option<MergeStrategyArg> {
    match command {
        Command::Implement { merge_strategy, .. } => merge_strategy,
        Command::Clear { merge_strategy, .. } => merge_strategy,
        _ => None,
    }
}

/// The strategy a command-line value stands for.
pub open spec fn arg_strategy(arg: MergeStrategyArg) -> MergeStrategy {
    match arg {
        MergeStrategyArg::Direct => MergeStrategy::Direct,
        MergeStrategyArg::PerTicket => MergeStrategy::PerTicket,
        MergeStrategyArg::FeatureBranch => MergeStrategy::FeatureBranch,
    }
}

/// The merge strategy of a run: the command line's, else the configured
/// one, else `feature-branch` when the configured key is unknown.
pub open spec fn chosen_strategy(arg: Option<MergeStrategyArg>, key: Seq<char>) -> MergeStrategy {
    match arg {
        Some(a) => arg_strategy(a),
        None => match MergeStrategy::from_key_view(key) {
            Some(m) => m,
            None => MergeStrategy::FeatureBranch,
        },
    }
}

/// The policy a configured key names, or `fallback` when the key is unknown.
pub open spec fn dirty_policy(key: Seq<char>, fallback: DirtyBehavior) -> DirtyBehavior {
    match DirtyBehavior::from_key_view(key) {
        Some(b) => b,
        None => fallback,
    }
}

/// `rc` is the run configuration for `command` under `config`, with the
/// repository context and the working directory already resolved. Command-line
/// values take precedence over the configured ones.
pub open spec fn configured_run(
    rc: RunConfig,
    command: Command,
    config: Config,
    repo_context: Seq<char>,
    work_directory: Seq<char>,
) -> bool {
    &&& rc.max_iterations == match max_iterations_of(command) {
        Some(n) => n,
        None => config.run.max_iterations,
    }
    &&& rc.merge_strategy == chosen_strategy(
        strategy_arg_of(command),
        config.source_control.merge_strategy@,
    )
    &&& rc.base_branch@ == config.source_control.base_branch@
    &&& rc.use_worktree == config.source_control.use_worktree
    &&& rc.on_dirty_after_commit == dirty_policy(
        config.source_control.on_dirty_after_commit@,
        DirtyBehavior::Warn,
    )
    &&& rc.on_dirty_no_commits == dirty_policy(
        config.source_control.on_dirty_no_commits@,
        DirtyBehavior::Fail,
    )
    &&& rc.dry_run == dry_run_of(command)
    &&& rc.repo_context@ == repo_context
    &&& rc.work_directory@ == work_directory
}

/// The settings of a run of `command` (any but `init`) under `config`.
/// `repo_context` is the contents of the configured context file, and
/// `work_directory` the directory the run works in.
pub fn build_run_config(
    command: &Command,
    config: &Config,
    repo_context: String,
    work_directory: String,
) -> (r: RunConfig)
    requires
        !(command is Init),
    ensures
        configured_run(r, *command, *config, repo_context@, work_directory@),
{
    let (dry_run, max_iterations_override, merge_strategy_override) = match command {
        Command::Implement { dry_run, max_iterations, merge_strategy, .. } => (
            *dry_run,
            *max_iterations,
            *merge_strategy,
        ),
        Command::Clear { dry_run, max_iterations, merge_strategy, .. } => (
            *dry_run,
            *max_iterations,
            *merge_strategy,
        ),
        Command::Review { dry_run, .. } => (*dry_run, None, None),
        Command::Init { .. } => (false, None, None),
    };
    let merge_strategy = match merge_strategy_override {
        Some(MergeStrategyArg::Direct) => MergeStrategy::Direct,
        Some(MergeStrategyArg::PerTicket) => MergeStrategy::PerTicket,
        Some(MergeStrategyArg::FeatureBranch) => MergeStrategy::FeatureBranch,
        None => match MergeStrategy::from_key(config.source_control.merge_strategy.as_str()) {
            Some(m) => m,
            None => MergeStrategy::FeatureBranch,
        },
    };
    let on_dirty_after_commit = match DirtyBehavior::from_key(
        config.source_control.on_dirty_after_commit.as_str(),
    ) {
        Some(b) => b,
        None => DirtyBehavior::Warn,
    };
    let on_dirty_no_commits = match DirtyBehavior::from_key(
        config.source_control.on_dirty_no_commits.as_str(),
    ) {
        Some(b) => b,
        None => DirtyBehavior::Fail,
    };
    let max_iterations = match max_iterations_override {
        Some(n) => n,
        None => config.run.max_iterations,
    };
    RunConfig {
        max_iterations,
        merge_strategy,
        base_branch: config.source_control.base_branch.clone(),
        use_worktree: config.source_control.use_worktree,
        on_dirty_after_commit,
        on_dirty_no_commits,
        dry_run,
        repo_context,
        work_directory,
    }
}

/// The context a run of `command` works in: the GitHub tracker and remote of
/// the configured repository, git, and the local agent, each running its
/// commands through a copy of `runner`. Fails when the configuration names
/// an issue tracker other than `github`, or an agent other than `local`, or
/// leaves out the command the local agent runs as.
pub fn build_context<
    C: CommandRunner + Clone,
    J: JsonDecoder + Clone,
    E: EventSink,
    P: PromptLoader,
>(
    command: &Command,
    config: &Config,
    repo_context: String,
    work_directory: String,
    runner: C,
    json: J,
    events: E,
    prompts: P,
) -> (r: Result<
    Context<GithubAdapter<C, J>, GitClient<C>, GithubAdapter<C, J>, LocalRunner<C>, E, P, J>,
    Error,
>)
    requires
        !(command is Init),
    ensures
        config.issue_tracker.kind@ != "github"@ ==> (r matches Err(Error::UnknownIssueTrackerKind(k))
            && k@ == config.issue_tracker.kind@),
        config.issue_tracker.kind@ == "github"@ && config.agent.kind@ != "local"@ ==> (r matches Err(
            Error::UnknownAgentKind(k),
        ) && k@ == config.agent.kind@),
        config.issue_tracker.kind@ == "github"@ && config.agent.kind@ == "local"@
            && config.agent.command is None ==> (r matches Err(Error::MissingAgentCommand)),
        config.issue_tracker.kind@ == "github"@ && config.agent.kind@ == "local"@
            && config.agent.command is Some ==> (r matches Ok(
            ctx,
        ) && ctx.log() == Seq::<Call>::empty() && ctx.spent() == 0
            && ctx.issue_tracker().repo() == config.issue_tracker.repo@
            && ctx.remote().repo() == config.issue_tracker.repo@
            && ctx.agent().program() == config.agent.command->Some_0@
            && settings_view(ctx.agent().settings_file()) == settings_view(config.agent.settings_file)
            && configured_run(
            ctx.settings(),
            *command,
            *config,
            repo_context@,
            work_directory@,
        )),
{
    if !str_eq(config.issue_tracker.kind.as_str(), "github") {
        return Err(Error::UnknownIssueTrackerKind(config.issue_tracker.kind.clone()));
    }
    if !str_eq(config.agent.kind.as_str(), "local") {
        return Err(Error::UnknownAgentKind(config.agent.kind.clone()));
    }
    let program = match &config.agent.command {
        Some(c) => c.clone(),
        None => return Err(Error::MissingAgentCommand),
    };
    let repo = config.issue_tracker.repo.as_str();
    let issues = GithubAdapter::new(repo, runner.clone(), json.clone());
    let remote = GithubAdapter::new(repo, runner.clone(), json.clone());
    let source_control = GitClient::new(runner.clone());
    let agent = LocalRunner::new(runner, program, config.agent.settings_file.clone());
    let run_config = build_run_config(command, config, repo_context, work_directory);
    Ok(Context::new(issues, source_control, remote, agent, events, prompts, json, run_config))
}

/// The call that starts a workflow on issue `issue_id`, at index `s` of
/// `log`: asking the tracker what kind of issue it is. When that fails, the
/// workflow ends there with the tracker's error.
pub open spec fn asked_kind<T>(issue_id: u64, log: Seq<Call>, s: int, r: Result<T, Error>) -> bool {
    &&& 0 <= s < log.len()
    &&& log[s] matches Call::KindOf(id, kind) && id == issue_id && match kind {
        Err(e) => log.len() == s + 1 && r == Err::<T, Error>(e),
        Ok(_) => true,
    }
}

/// `intern implement <issue-id>`: carries the issue from open to done, from
/// the configured base branch: a ticket by the implement and review loop, a
/// feature together with its sub-issues.
pub fn implement_workflow<
    I: IssueTracker,
    S: SourceControl,
    R: RemoteClient,
    A: AgentRunner,
    E: EventSink,
    P: PromptLoader,
    J: JsonDecoder,
>(issue_id: u64, ctx: &mut Context<I, S, R, A, E, P, J>) -> (r: Result<(), Error>)
    ensures
        r matches Err(e) ==> ended_by(final(ctx).log(), old(ctx).log().len() as int, e),
        final(ctx).extends(old(ctx)),
        asked_kind(issue_id, final(ctx).log(), old(ctx).log().len() as int, r),
        run_laws(
            final(ctx).log(),
            old(ctx).log().len() as int,
            final(ctx).log().len() as int,
            old(ctx).settings(),
        ),
        issue_ran(
            issue_id,
            old(ctx).settings().base_branch@,
            old(ctx).settings(),
            final(ctx).log(),
            old(ctx).log().len() as int,
            r,
        ),
{
    let base_branch = ctx.config().base_branch.clone();
    carry_issue(issue_id, ctx, base_branch.as_str())
}

/// The calls of `log` from `s` on clear the issues labeled `label`: they
/// are fetched, then worked through from the configured base branch
/// ([`ordered_ran`]); `r` is the outcome.
pub open spec fn cleared(label: Seq<char>, cfg: RunConfig, log: Seq<Call>, s: int, r: Result<(), Error>) -> bool {
    &&& 0 <= s < log.len()
    &&& log[s] matches Call::IssuesByLabel(l, fetched) && l == label && match fetched {
        Err(e) => log.len() == s + 1 && r == Err::<(), Error>(e),
        Ok(issues) => ordered_ran(issues@, cfg.base_branch@, cfg, log, s + 1, r),
    }
}

/// `intern clear <label>`: fetches the issues with the label and carries them
/// all from open to done, in the order the agent plans, from the configured
/// base branch.
pub fn clear_workflow<
    I: IssueTracker,
    S: SourceControl,
    R: RemoteClient,
    A: AgentRunner,
    E: EventSink,
    P: PromptLoader,
    J: JsonDecoder,
>(label: &str, ctx: &mut Context<I, S, R, A, E, P, J>) -> (r: Result<(), Error>)
    ensures
        r matches Err(e) ==> ended_by(final(ctx).log(), old(ctx).log().len() as int, e),
        final(ctx).extends(old(ctx)),
        final(ctx).log().len() > old(ctx).log().len(),
        final(ctx).log()[old(ctx).log().len() as int] matches Call::IssuesByLabel(l, fetched)
            && l == label@ && (fetched matches Err(e) ==> r == Err::<(), Error>(e)
            && final(ctx).log().len() == old(ctx).log().len() + 1),
        run_laws(
            final(ctx).log(),
            old(ctx).log().len() as int,
            final(ctx).log().len() as int,
            old(ctx).settings(),
        ),
        cleared(label@, old(ctx).settings(), final(ctx).log(), old(ctx).log().len() as int, r),
{
    let ghost start = old(ctx).log().len() as int;
    let ghost cfg = old(ctx).settings();
    let base_branch = ctx.config().base_branch.clone();
    let fetched = ctx.get_issues_by_label(label);
    proof {
        lemma_laws_empty(old(ctx).log(), start, cfg);
        lemma_laws_push(old(ctx).log(), Call::IssuesByLabel(label@, fetched), start, cfg);
    }
    let issues = match fetched {
        Err(e) => return Err(e),
        Ok(issues) => issues,
    };
    let ghost before = ctx.log();
    let done = execute_ordered(issues.as_slice(), ctx, base_branch.as_str());
    proof {
        crate::laws::lemma_laws_append(before, ctx.log(), start, cfg);
    }
    done
}

/// The calls of `log` from `s` on, with `spent` invocations used before
/// them, review issue `issue_id`: the tracker is asked for its kind, then the
/// ticket review runs for a ticket and the feature review for a feature; `r`
/// tells whether the review reported findings.
pub open spec fn review_ran(
    issue_id: u64,
    cfg: RunConfig,
    spent: nat,
    log: Seq<Call>,
    s: int,
    r: Result<bool, Error>,
) -> bool {
    &&& asked_kind(issue_id, log, s, r)
    &&& log[s] matches Call::KindOf(_, Ok(kind)) ==> diff_action_ran(
        issue_id,
        match kind {
            IssueType::Ticket => "review"@,
            IssueType::Feature => "feature_review"@,
        },
        cfg,
        spent,
        log,
        s + 1,
        r,
        |o: AgentOutput| contains(
            o.stdout@,
            match kind {
                IssueType::Ticket => findings_tag(),
                IssueType::Feature => in_scope_findings_tag(),
            },
        ),
    )
}

/// `intern review <issue-id>`: runs the review phase against a completed
/// issue, the ticket review for a ticket and the feature review for a
/// feature; tells whether the review reported findings.
pub fn review_workflow<
    I: IssueTracker,
    S: SourceControl,
    R: RemoteClient,
    A: AgentRunner,
    E: EventSink,
    P: PromptLoader,
    J: JsonDecoder,
>(issue_id: u64, ctx: &mut Context<I, S, R, A, E, P, J>) -> (r: Result<bool, Error>)
    ensures
        r matches Err(e) ==> ended_by(final(ctx).log(), old(ctx).log().len() as int, e),
        final(ctx).extends(old(ctx)),
        final(ctx).spent() <= old(ctx).spent() + 1,
        review_ran(
            issue_id,
            old(ctx).settings(),
            old(ctx).spent(),
            final(ctx).log(),
            old(ctx).log().len() as int,
            r,
        ),
        run_laws(
            final(ctx).log(),
            old(ctx).log().len() as int,
            final(ctx).log().len() as int,
            old(ctx).settings(),
        ),
{
    let ghost start = old(ctx).log().len() as int;
    let ghost cfg = old(ctx).settings();
    let kind = ctx.issue_type(issue_id);
    proof {
        lemma_laws_empty(old(ctx).log(), start, cfg);
        lemma_laws_push(old(ctx).log(), Call::KindOf(issue_id, kind), start, cfg);
    }
    let kind = match kind {
        Err(e) => return Err(e),
        Ok(kind) => kind,
    };
    let ghost before = ctx.log();
    let ghost spent = ctx.spent();
    let found = match kind {
        IssueType::Ticket => review(issue_id, ctx),
        IssueType::Feature => feature_review(issue_id, ctx),
    };
    proof {
        match kind {
            IssueType::Ticket => lemma_diff_action_laws(
                issue_id,
                "review"@,
                cfg,
                spent,
                ctx.log(),
                before.len() as int,
                found,
                |o: AgentOutput| contains(o.stdout@, findings_tag()),
            ),
            IssueType::Feature => lemma_diff_action_laws(
                issue_id,
                "feature_review"@,
                cfg,
                spent,
                ctx.log(),
                before.len() as int,
                found,
                |o: AgentOutput| contains(o.stdout@, in_scope_findings_tag()),
            ),
        }
        crate::laws::lemma_laws_append(before, ctx.log(), start, cfg);
    }
    found
}

} // verus!
