//! Behaviors: the compositions of actions that carry an issue from open to done.
use vstd::prelude::*;
pub use crate::wizard::{
    detect_wizard_hints, generate_config_toml, interactive_config_wizard, Interview,
    UserInteractor, WizardHints, WizardOutput,
};
use crate::actions::agent::{
    diff_action_ran, feature_review, findings_tag, generate_test_instructions, implement,
    implement_ran, in_scope_findings_tag, issue_views, plan_order, plan_order_ran, review,
};
use crate::context::{agent_runs, lemma_agent_runs_extend, Call, Context};
use crate::laws::{
    call_ok, clean_review_at, created_branch, ended_by, lemma_diff_action_laws, lemma_implement_laws,
    lemma_instructions_laws, lemma_laws_append, lemma_laws_empty, lemma_laws_push,
    lemma_plan_order_laws, run_laws,
};
use crate::text::{contains, decimal, push_str, str_eq, u64_to_string};
use crate::traits::{
    AgentOutput, AgentRunner, DirtyBehavior, Error, EventSink, Issue, IssueTracker, IssueType, JsonDecoder,
    MergeStrategy, PromptLoader, RemoteClient, RunConfig, SourceControl,
};

verus! {

broadcast use {vstd::string::group_string_axioms, vstd::std_specs::vec::group_vec_axioms};

/// The branch that holds the work on issue `id`.
pub open spec fn branch_name(id: u64) -> Seq<char> {
    "feature/ticket-"@ + decimal(id as nat)
}

/// Every issue gets a branch of its own: two issues never share a branch
/// name, and the name is `feature/ticket-` followed by the issue's number.
pub proof fn lemma_branch_names_distinct(a: u64, b: u64)
    ensures
        branch_name(a) == branch_name(b) ==> a == b,
        branch_name(a).take(15) == "feature/ticket-"@,
        crate::text::parse_u64(branch_name(a).skip(15)) == Some(a),
{
    reveal_strlit("feature/ticket-");
    let p = "feature/ticket-"@;
    assert(p.len() == 15);
    assert(branch_name(a).take(15) =~= p);
    assert(branch_name(a).skip(15) =~= decimal(a as nat));
    assert(branch_name(b).skip(15) =~= decimal(b as nat));
    crate::text::lemma_parse_decimal(a);
    crate::text::lemma_parse_decimal(b);
}

/// The merge strategies, as the README's table gives them: under `direct`
/// no issue has a branch; under `per-ticket` each ticket has its own branch
/// and features none; under `feature-branch` tickets and features each have
/// their own.
pub proof fn lemma_strategy_table(cfg: RunConfig, id: u64)
    ensures
        cfg.merge_strategy == MergeStrategy::Direct ==> ticket_branch(cfg, id) is None && feature_branch(cfg, id) is None,
        cfg.merge_strategy == MergeStrategy::PerTicket ==> ticket_branch(cfg, id) == Some(branch_name(id)) && feature_branch(cfg, id) is None,
        cfg.merge_strategy == MergeStrategy::FeatureBranch ==> ticket_branch(cfg, id) == Some(branch_name(id)) && feature_branch(cfg, id) == Some(branch_name(id)),
{
}

/// The branch that holds the work on issue `id`.
pub fn feature_branch_name(id: u64) -> (r: String)
    ensures
        r@ == branch_name(id),
{
    let mut r = String::new();
    push_str(&mut r, "feature/ticket-");
    let n = u64_to_string(id);
    push_str(&mut r, n.as_str());
    r
}

/// Prepares the working copy for issue `id`: under the `direct` strategy
/// nothing is done; otherwise the issue's branch is created from `base_branch`
/// and its name given back.
pub fn setup_workspace<
    I: IssueTracker,
    S: SourceControl,
    R: RemoteClient,
    A: AgentRunner,
    E: EventSink,
    P: PromptLoader,
    J: JsonDecoder,
>(issue_id: u64, base_branch: &str, ctx: &mut Context<I, S, R, A, E, P, J>) -> (r: Result<
    Option<String>,
    Error,
>)
    ensures
        r matches Err(e) ==> ended_by(final(ctx).log(), old(ctx).log().len() as int, e),
        final(ctx).extends(old(ctx)),
        final(ctx).spent() == old(ctx).spent(),
        old(ctx).settings().merge_strategy == MergeStrategy::Direct ==> {
            &&& final(ctx).log() == old(ctx).log()
            &&& r matches Ok(None)
        },
        old(ctx).settings().merge_strategy != MergeStrategy::Direct ==> {
            &&& final(ctx).log().len() == old(ctx).log().len() + 1
            &&& final(ctx).log().last() matches Call::CreateBranch(name, from, created)
                && name == branch_name(issue_id) && from == base_branch@ && match created {
                Err(e) => r == Err::<Option<String>, Error>(e),
                Ok(_) => r matches Ok(Some(b)) && b@ == branch_name(issue_id),
            }
        },
        run_laws(
            final(ctx).log(),
            old(ctx).log().len() as int,
            final(ctx).log().len() as int,
            old(ctx).settings(),
        ),
{
    match ctx.config().merge_strategy {
        MergeStrategy::Direct => {
            proof {
                lemma_laws_empty(ctx.log(), ctx.log().len() as int, ctx.settings());
            }
            Ok(None)
        },
        _ => {
            let branch = feature_branch_name(issue_id);
            let created = ctx.create_branch(branch.as_str(), base_branch);
            proof {
                let log = ctx.log();
                let s = old(ctx).log().len() as int;
                assert(call_ok(log, s, s, ctx.settings()));
            }
            match created {
                Err(e) => Err(e),
                Ok(()) => Ok(Some(branch)),
            }
        },
    }
}

// ---------------------------------------------------------------------------
// The state of the working tree after implementation

/// The commit message when the agent made no commits.
pub open spec fn no_commits_message(id: u64) -> Seq<char> {
    "Implement issue #"@ + decimal(id as nat)
}

/// The commit message for what the agent left uncommitted.
pub open spec fn remaining_changes_message(id: u64) -> Seq<char> {
    "Commit remaining changes for issue #"@ + decimal(id as nat)
}

/// The calls from index `s` of `log` to its end stage every change and commit
/// it with `message`; `r` fails as the first failed call did.
pub open spec fn committed_all(message: Seq<char>, log: Seq<Call>, s: int, r: Result<(), Error>) -> bool {
    &&& 0 <= s < log.len()
    &&& log[s] matches Call::StageAll(staged) && match staged {
        Err(e) => log.len() == s + 1 && r == Err::<(), Error>(e),
        Ok(_) => {
            &&& log.len() == s + 2
            &&& log[s + 1] matches Call::Commit(m, done) && m == message && match done {
                Err(e) => r == Err::<(), Error>(e),
                Ok(_) => r is Ok,
            }
        },
    }
}

/// The calls from index `s` of `log` to its end check the working tree after
/// issue `id` was implemented on a branch forked from `base`: when the agent
/// made no commits, `on_dirty_no_commits` decides; when it committed but left
/// changes behind, `on_dirty_after_commit` decides. `fail` fails the ticket,
/// `warn` lets it go on, `commit` stages and commits everything.
pub open spec fn dirty_check_ran(
    id: u64,
    base: Seq<char>,
    cfg: RunConfig,
    log: Seq<Call>,
    s: int,
    r: Result<(), Error>,
) -> bool {
    &&& 0 <= s < log.len()
    &&& log[s] matches Call::HasCommitsSince(b, committed) && b == base && match committed {
        Err(e) => log.len() == s + 1 && r == Err::<(), Error>(e),
        Ok(false) => match cfg.on_dirty_no_commits {
            DirtyBehavior::Fail => log.len() == s + 1 && (r matches Err(Error::NoCommits(j)) && j == id),
            DirtyBehavior::Warn => log.len() == s + 1 && r is Ok,
            DirtyBehavior::Commit => committed_all(no_commits_message(id), log, s + 1, r),
        },
        Ok(true) => {
            &&& s + 1 < log.len()
            &&& log[s + 1] matches Call::HasUncommitted(dirty) && match dirty {
                Err(e) => log.len() == s + 2 && r == Err::<(), Error>(e),
                Ok(false) => log.len() == s + 2 && r is Ok,
                Ok(true) => match cfg.on_dirty_after_commit {
                    DirtyBehavior::Fail => log.len() == s + 2 && (r matches Err(
                        Error::UncommittedChanges(j),
                    ) && j == id),
                    DirtyBehavior::Warn => log.len() == s + 2 && r is Ok,
                    DirtyBehavior::Commit => committed_all(
                        remaining_changes_message(id),
                        log,
                        s + 2,
                        r,
                    ),
                },
            }
        },
    }
}

fn commit_message(prefix: &str, id: u64) -> (r: String)
    ensures
        r@ == prefix@ + decimal(id as nat),
{
    let mut r = String::new();
    push_str(&mut r, prefix);
    let n = u64_to_string(id);
    push_str(&mut r, n.as_str());
    r
}

fn commit_all<
    I: IssueTracker,
    S: SourceControl,
    R: RemoteClient,
    A: AgentRunner,
    E: EventSink,
    P: PromptLoader,
    J: JsonDecoder,
>(message: &str, ctx: &mut Context<I, S, R, A, E, P, J>) -> (r: Result<(), Error>)
    ensures
        final(ctx).extends(old(ctx)),
        final(ctx).spent() == old(ctx).spent(),
        committed_all(message@, final(ctx).log(), old(ctx).log().len() as int, r),
{
    match ctx.stage_all() {
        Err(e) => return Err(e),
        Ok(()) => {},
    }
    ctx.commit(message)
}

/// Checks the working tree after the agent implemented issue `issue_id` on a
/// branch forked from `base_branch`, and acts as the run's dirty policies say.
pub fn check_dirty_state<
    I: IssueTracker,
    S: SourceControl,
    R: RemoteClient,
    A: AgentRunner,
    E: EventSink,
    P: PromptLoader,
    J: JsonDecoder,
>(issue_id: u64, base_branch: &str, ctx: &mut Context<I, S, R, A, E, P, J>) -> (r: Result<(), Error>)
    ensures
        r matches Err(e) ==> ended_by(final(ctx).log(), old(ctx).log().len() as int, e),
        final(ctx).extends(old(ctx)),
        final(ctx).spent() == old(ctx).spent(),
        dirty_check_ran(
            issue_id,
            base_branch@,
            old(ctx).settings(),
            final(ctx).log(),
            old(ctx).log().len() as int,
            r,
        ),
        run_laws(
            final(ctx).log(),
            old(ctx).log().len() as int,
            final(ctx).log().len() as int,
            old(ctx).settings(),
        ),
{
    let r = check_dirty_state_calls(issue_id, base_branch, ctx);
    proof {
        let log = ctx.log();
        let s = old(ctx).log().len() as int;
        let cfg = ctx.settings();
        assert forall|i: int| s <= i < log.len() implies #[trigger] call_ok(log, s, i, cfg) by {
            if i == s {
            } else if i == s + 1 {
            } else if i == s + 2 {
            } else {
            }
        }
    }
    r
}

fn check_dirty_state_calls<
    I: IssueTracker,
    S: SourceControl,
    R: RemoteClient,
    A: AgentRunner,
    E: EventSink,
    P: PromptLoader,
    J: JsonDecoder,
>(issue_id: u64, base_branch: &str, ctx: &mut Context<I, S, R, A, E, P, J>) -> (r: Result<(), Error>)
    ensures
        final(ctx).extends(old(ctx)),
        final(ctx).spent() == old(ctx).spent(),
        dirty_check_ran(
            issue_id,
            base_branch@,
            old(ctx).settings(),
            final(ctx).log(),
            old(ctx).log().len() as int,
            r,
        ),
{
    let has_commits = match ctx.has_commits_since(base_branch) {
        Err(e) => return Err(e),
        Ok(b) => b,
    };
    if !has_commits {
        match ctx.config().on_dirty_no_commits {
            DirtyBehavior::Fail => Err(Error::NoCommits(issue_id)),
            DirtyBehavior::Warn => Ok(()),
            DirtyBehavior::Commit => {
                let message = commit_message("Implement issue #", issue_id);
                commit_all(message.as_str(), ctx)
            },
        }
    } else {
        let dirty = match ctx.has_uncommitted_changes() {
            Err(e) => return Err(e),
            Ok(d) => d,
        };
        if !dirty {
            return Ok(());
        }
        match ctx.config().on_dirty_after_commit {
            DirtyBehavior::Fail => Err(Error::UncommittedChanges(issue_id)),
            DirtyBehavior::Warn => Ok(()),
            DirtyBehavior::Commit => {
                let message = commit_message("Commit remaining changes for issue #", issue_id);
                commit_all(message.as_str(), ctx)
            },
        }
    }
}

// ---------------------------------------------------------------------------
// Pull requests

/// The title of the pull request for issue `id`.
pub open spec fn pr_title(id: u64) -> Seq<char> {
    "Resolve issue #"@ + decimal(id as nat)
}

/// The body of the pull request for issue `id`.
pub open spec fn pr_body(id: u64) -> Seq<char> {
    "Closes #"@ + decimal(id as nat)
}

/// Opens the pull request for issue `issue_id` from `branch`.
pub fn create_pr<
    I: IssueTracker,
    S: SourceControl,
    R: RemoteClient,
    A: AgentRunner,
    E: EventSink,
    P: PromptLoader,
    J: JsonDecoder,
>(issue_id: u64, branch: &str, ctx: &mut Context<I, S, R, A, E, P, J>) -> (r: Result<String, Error>)
    ensures
        r matches Err(e) ==> ended_by(final(ctx).log(), old(ctx).log().len() as int, e),
        final(ctx).after_call(
            old(ctx),
            Call::CreatePr(pr_title(issue_id), pr_body(issue_id), branch@, r),
        ),
{
    let title = commit_message("Resolve issue #", issue_id);
    let body = commit_message("Closes #", issue_id);
    ctx.create_pr(title.as_str(), body.as_str(), branch)
}

// ---------------------------------------------------------------------------
// Tickets

/// Test instructions for issue `id` were given from index `k` of `log`: the
/// issue and its diff were read, the `test_instructions` template loaded, and
/// the agent ran on the prompt.
pub open spec fn instructions_given(log: Seq<Call>, k: int, id: u64) -> bool {
    &&& 0 <= k && k + 3 < log.len()
    &&& log[k] matches Call::GetIssue(i, Ok(_)) && i == id
    &&& log[k + 2] matches Call::LoadPrompt(n, _) && n == "test_instructions"@
    &&& log[k + 3] matches Call::RunAgent(_, Ok(_))
}

/// How issue `id`, carried through without error, ended in the calls of
/// `log` from index `from`: it was left to a person (skipped), or test
/// instructions were given for it, followed, where it has the branch
/// `branch`, by the opening of its pull request, as the last call.
pub open spec fn finished(log: Seq<Call>, from: int, id: u64, branch: Option<Seq<char>>) -> bool {
    ||| from < log.len() && log.last() == Call::Skip(id, Ok(()))
    ||| exists|k: int|
        from <= k && #[trigger] instructions_given(log, k, id) && match branch {
            None => k + 4 == log.len(),
            Some(b) => k + 5 == log.len() && (log.last() matches Call::CreatePr(_, _, br, Ok(_))
                && br == b),
        }
}

/// The branch of a feature under `cfg`: only the `feature-branch` strategy
/// gives a feature a branch of its own.
pub open spec fn feature_branch(cfg: RunConfig, id: u64) -> Option<Seq<char>> {
    if cfg.merge_strategy == MergeStrategy::FeatureBranch {
        Some(branch_name(id))
    } else {
        None
    }
}

/// The branch of a ticket under `cfg`: none under the `direct` strategy.
pub open spec fn ticket_branch(cfg: RunConfig, id: u64) -> Option<Seq<char>> {
    if cfg.merge_strategy == MergeStrategy::Direct {
        None
    } else {
        Some(branch_name(id))
    }
}


// ---------------------------------------------------------------------------
// The course of a ticket

/// `log1` is a prefix of `log2`.
pub open spec fn prefix_of(log1: Seq<Call>, log2: Seq<Call>) -> bool {
    &&& log1.len() <= log2.len()
    &&& forall|i: int| 0 <= i < log1.len() ==> #[trigger] log2[i] == log1[i]
}

/// The agent invocations made before index `a` of `log`.
pub open spec fn spent_at(log: Seq<Call>, a: int) -> nat {
    agent_runs(log.take(a))
}

/// What a ticket review's reply means: true when it reports findings.
pub open spec fn review_findings() -> spec_fn(AgentOutput) -> bool {
    |o: AgentOutput| contains(o.stdout@, findings_tag())
}

/// What a feature review's reply means: true when it reports in-scope findings.
pub open spec fn feature_findings() -> spec_fn(AgentOutput) -> bool {
    |o: AgentOutput| contains(o.stdout@, in_scope_findings_tag())
}

/// Test instructions give back nothing but their success.
pub open spec fn no_value() -> spec_fn(AgentOutput) -> () {
    |o: AgentOutput| ()
}

/// The calls of `log` from `a` up to `b` are one round of work on ticket `id`:
/// the ticket is implemented and, when that succeeded, reviewed. `outcome` is
/// whether the review reported findings, or the error that ended the round.
pub open spec fn round_ran(
    id: u64,
    cfg: RunConfig,
    log: Seq<Call>,
    a: int,
    b: int,
    outcome: Result<bool, Error>,
) -> bool {
    exists|m: int, ri: Result<(), Error>|
        #![trigger implement_ran(id, cfg, spent_at(log, a), log.take(m), a, ri)]
        a < m <= b && b <= log.len() && implement_ran(id, cfg, spent_at(log, a), log.take(m), a, ri)
            && match ri {
            Err(e) => m == b && outcome == Err::<bool, Error>(e),
            Ok(_) => diff_action_ran(
                id,
                "review"@,
                cfg,
                spent_at(log, m),
                log.take(b),
                m,
                outcome,
                review_findings(),
            ),
        }
}

/// The calls of `log` between consecutive `bounds` are rounds of work on
/// ticket `id` whose reviews reported findings.
pub open spec fn rounds_ran(id: u64, cfg: RunConfig, log: Seq<Call>, bounds: Seq<int>) -> bool {
    &&& bounds.len() >= 1
    &&& forall|k: int|
        0 <= k < bounds.len() - 1 ==> #[trigger] round_ran(id, cfg, log, bounds[k], bounds[k + 1], Ok(true))
}

/// A round that failed with `e`, ending at index `m` of `log`, ends ticket
/// `id`: when the budget refused the agent and is spent, the ticket is
/// skipped and `r` is what the skip gave back; otherwise `r` is `e`.
pub open spec fn round_failed(
    id: u64,
    cfg: RunConfig,
    log: Seq<Call>,
    m: int,
    e: Error,
    r: Result<(), Error>,
) -> bool {
    if e is BudgetExhausted && spent_at(log, m) >= cfg.max_iterations {
        &&& 0 <= m && log.len() == m + 1
        &&& log[m] matches Call::Skip(i, skipped) && i == id && r == skipped
    } else {
        log.len() == m && r == Err::<(), Error>(e)
    }
}

/// The calls of `log` from `a` on finish ticket `id`, whose branch is
/// `branch`, after a clean review: test instructions are asked for and, where
/// the ticket has a branch, its pull request is opened, as the last call.
/// `r` is the error of the first call that failed, else success.
pub open spec fn instructed(
    id: u64,
    cfg: RunConfig,
    branch: Option<Seq<char>>,
    log: Seq<Call>,
    a: int,
    r: Result<(), Error>,
) -> bool {
    exists|m: int, rt: Result<(), Error>|
        #![trigger diff_action_ran(id, "test_instructions"@, cfg, spent_at(log, a), log.take(m), a, rt, no_value())]
        a < m <= log.len() && diff_action_ran(
            id,
            "test_instructions"@,
            cfg,
            spent_at(log, a),
            log.take(m),
            a,
            rt,
            no_value(),
        ) && match rt {
            Err(e) => m == log.len() && r == Err::<(), Error>(e),
            Ok(_) => match branch {
                None => m == log.len() && r is Ok,
                Some(b) => {
                    &&& log.len() == m + 1
                    &&& log[m] matches Call::CreatePr(t, body, br, opened) && t == pr_title(id) && body
                        == pr_body(id) && br == b && match opened {
                        Err(e) => r == Err::<(), Error>(e),
                        Ok(_) => r is Ok,
                    }
                },
            },
        }
}

/// The calls of `log` from `a` on check that the work on ticket `id` is on
/// its branch, where it has one: a query of the current branch, which ends
/// the ticket with a mismatch when it is another branch, and otherwise
/// [`instructed`].
pub open spec fn branch_checked(
    id: u64,
    cfg: RunConfig,
    branch: Option<Seq<char>>,
    log: Seq<Call>,
    a: int,
    r: Result<(), Error>,
) -> bool {
    match branch {
        None => instructed(id, cfg, None, log, a, r),
        Some(b) => {
            &&& 0 <= a < log.len()
            &&& log[a] matches Call::CurrentBranch(current) && match current {
                Err(e) => log.len() == a + 1 && r == Err::<(), Error>(e),
                Ok(actual) => if actual@ == b {
                    instructed(id, cfg, branch, log, a + 1, r)
                } else {
                    &&& log.len() == a + 1
                    &&& r matches Err(Error::BranchMismatch { expected, actual: got }) && expected@ == b
                        && got@ == actual@
                },
            }
        },
    }
}

/// The calls of `log` from `a` on follow a clean review of ticket `id`: the
/// working tree is checked under the run's dirty policies, then
/// [`branch_checked`].
pub open spec fn after_review(
    id: u64,
    base: Seq<char>,
    cfg: RunConfig,
    branch: Option<Seq<char>>,
    log: Seq<Call>,
    a: int,
    r: Result<(), Error>,
) -> bool {
    exists|m: int, rc: Result<(), Error>|
        #![trigger dirty_check_ran(id, base, cfg, log.take(m), a, rc)]
        a < m <= log.len() && dirty_check_ran(id, base, cfg, log.take(m), a, rc) && match rc {
            Err(e) => m == log.len() && r == Err::<(), Error>(e),
            Ok(_) => branch_checked(id, cfg, branch, log, m, r),
        }
}

/// The calls of `log` from `s` on work on ticket `id`: rounds whose reviews
/// report findings, then a last round, which either failed (see
/// [`round_failed`]) or ended in a clean review (see [`after_review`]).
pub open spec fn ticket_worked(
    id: u64,
    base: Seq<char>,
    cfg: RunConfig,
    branch: Option<Seq<char>>,
    log: Seq<Call>,
    s: int,
    r: Result<(), Error>,
) -> bool {
    exists|bounds: Seq<int>, b: int, outcome: Result<bool, Error>|
        #![trigger rounds_ran(id, cfg, log, bounds), round_ran(id, cfg, log, bounds.last(), b, outcome)]
        rounds_ran(id, cfg, log, bounds) && bounds[0] == s && round_ran(
            id,
            cfg,
            log,
            bounds.last(),
            b,
            outcome,
        ) && match outcome {
            Err(e) => round_failed(id, cfg, log, b, e, r),
            Ok(true) => false,
            Ok(false) => after_review(id, base, cfg, branch, log, b, r),
        }
}

/// The calls of `log` from `s` on carry ticket `id` from open to done on a
/// branch forked from `base`, and `r` is the outcome: where the strategy
/// gives the ticket a branch, it is created first; then [`ticket_worked`].
#[verifier::opaque]
pub open spec fn ticket_ran(
    id: u64,
    base: Seq<char>,
    cfg: RunConfig,
    log: Seq<Call>,
    s: int,
    r: Result<(), Error>,
) -> bool {
    match ticket_branch(cfg, id) {
        None => ticket_worked(id, base, cfg, None, log, s, r),
        Some(b) => {
            &&& 0 <= s < log.len()
            &&& log[s] matches Call::CreateBranch(name, from, created) && name == b && from == base
                && match created {
                Err(e) => log.len() == s + 1 && r == Err::<(), Error>(e),
                Ok(_) => ticket_worked(id, base, cfg, Some(b), log, s + 1, r),
            }
        },
    }
}

/// A log that extends `log1` agrees with it on every prefix up to its length.
pub proof fn lemma_take_prefix(log1: Seq<Call>, log2: Seq<Call>, n: int)
    requires
        prefix_of(log1, log2),
        0 <= n <= log1.len(),
    ensures
        log2.take(n) == log1.take(n),
        spent_at(log2, n) == spent_at(log1, n),
{
    assert(log2.take(n) =~= log1.take(n));
}

/// A round stays a round as more calls are logged.
pub proof fn lemma_round_extend(
    id: u64,
    cfg: RunConfig,
    log1: Seq<Call>,
    log2: Seq<Call>,
    a: int,
    b: int,
    outcome: Result<bool, Error>,
)
    requires
        round_ran(id, cfg, log1, a, b, outcome),
        prefix_of(log1, log2),
    ensures
        round_ran(id, cfg, log2, a, b, outcome),
{
    let (m, ri) = choose|m: int, ri: Result<(), Error>|
        #![trigger implement_ran(id, cfg, spent_at(log1, a), log1.take(m), a, ri)]
        a < m <= b && b <= log1.len() && implement_ran(id, cfg, spent_at(log1, a), log1.take(m), a, ri)
            && match ri {
            Err(e) => m == b && outcome == Err::<bool, Error>(e),
            Ok(_) => diff_action_ran(
                id,
                "review"@,
                cfg,
                spent_at(log1, m),
                log1.take(b),
                m,
                outcome,
                review_findings(),
            ),
        };
    lemma_take_prefix(log1, log2, a);
    lemma_take_prefix(log1, log2, m);
    lemma_take_prefix(log1, log2, b);
    assert(implement_ran(id, cfg, spent_at(log2, a), log2.take(m), a, ri));
}

/// Rounds stay rounds as more calls are logged.
pub proof fn lemma_rounds_extend(id: u64, cfg: RunConfig, log1: Seq<Call>, log2: Seq<Call>, bounds: Seq<int>)
    requires
        rounds_ran(id, cfg, log1, bounds),
        prefix_of(log1, log2),
    ensures
        rounds_ran(id, cfg, log2, bounds),
{
    assert forall|k: int| 0 <= k < bounds.len() - 1 implies #[trigger] round_ran(
        id,
        cfg,
        log2,
        bounds[k],
        bounds[k + 1],
        Ok(true),
    ) by {
        lemma_round_extend(id, cfg, log1, log2, bounds[k], bounds[k + 1], Ok(true));
    }
}

/// Completing the work on a ticket from the rounds so far and the last round.
pub proof fn lemma_ticket_worked(
    id: u64,
    base: Seq<char>,
    cfg: RunConfig,
    branch: Option<Seq<char>>,
    log1: Seq<Call>,
    log: Seq<Call>,
    bounds: Seq<int>,
    b: int,
    outcome: Result<bool, Error>,
    r: Result<(), Error>,
)
    requires
        rounds_ran(id, cfg, log1, bounds),
        round_ran(id, cfg, log1, bounds.last(), b, outcome),
        prefix_of(log1, log),
        match outcome {
            Err(e) => round_failed(id, cfg, log, b, e, r),
            Ok(true) => false,
            Ok(false) => after_review(id, base, cfg, branch, log, b, r),
        },
    ensures
        ticket_worked(id, base, cfg, branch, log, bounds[0], r),
{
    lemma_rounds_extend(id, cfg, log1, log, bounds);
    lemma_round_extend(id, cfg, log1, log, bounds.last(), b, outcome);
}

/// The tail of a ticket after a clean review, from the dirty check on.
pub proof fn lemma_after_review(
    id: u64,
    base: Seq<char>,
    cfg: RunConfig,
    branch: Option<Seq<char>>,
    checked: Seq<Call>,
    log: Seq<Call>,
    a: int,
    rc: Result<(), Error>,
    r: Result<(), Error>,
)
    requires
        dirty_check_ran(id, base, cfg, checked, a, rc),
        prefix_of(checked, log),
        match rc {
            Err(e) => log.len() == checked.len() && r == Err::<(), Error>(e),
            Ok(_) => branch_checked(id, cfg, branch, log, checked.len() as int, r),
        },
    ensures
        after_review(id, base, cfg, branch, log, a, r),
{
    let m = checked.len() as int;
    assert(log.take(m) =~= checked);
    assert(dirty_check_ran(id, base, cfg, log.take(m), a, rc));
}

/// The end of a ticket, from the request for test instructions on.
pub proof fn lemma_instructed(
    id: u64,
    cfg: RunConfig,
    branch: Option<Seq<char>>,
    before: Seq<Call>,
    done: Seq<Call>,
    log: Seq<Call>,
    rt: Result<(), Error>,
    r: Result<(), Error>,
)
    requires
        prefix_of(before, done),
        prefix_of(done, log),
        diff_action_ran(
            id,
            "test_instructions"@,
            cfg,
            agent_runs(before),
            done,
            before.len() as int,
            rt,
            no_value(),
        ),
        match rt {
            Err(e) => log.len() == done.len() && r == Err::<(), Error>(e),
            Ok(_) => match branch {
                None => log.len() == done.len() && r is Ok,
                Some(b) => {
                    &&& log.len() == done.len() + 1
                    &&& log[done.len() as int] matches Call::CreatePr(t, body, br, opened) && t
                        == pr_title(id) && body == pr_body(id) && br == b && match opened {
                        Err(e) => r == Err::<(), Error>(e),
                        Ok(_) => r is Ok,
                    }
                },
            },
        },
    ensures
        instructed(id, cfg, branch, log, before.len() as int, r),
{
    let a = before.len() as int;
    let m = done.len() as int;
    assert(done.take(a) =~= before);
    assert(log.take(m) =~= done);
    assert(log.take(a) =~= before);
    assert(diff_action_ran(id, "test_instructions"@, cfg, spent_at(log, a), log.take(m), a, rt, no_value()));
}

/// A ticket whose branch, where it has one, was created at index `s` of
/// `log` from `base`, and whose work followed from `work`.
pub proof fn lemma_ticket_ran(
    id: u64,
    base: Seq<char>,
    cfg: RunConfig,
    log: Seq<Call>,
    s: int,
    work: int,
    r: Result<(), Error>,
)
    requires
        ticket_worked(id, base, cfg, ticket_branch(cfg, id), log, work, r),
        ticket_branch(cfg, id) is None ==> work == s,
        ticket_branch(cfg, id) matches Some(b) ==> work == s + 1 && 0 <= s < log.len() && (log[s] matches Call::CreateBranch(
            n,
            f,
            Ok(_),
        ) && n == b && f == base),
    ensures
        ticket_ran(id, base, cfg, log, s, r),
{
    reveal(ticket_ran);
}

/// Carries ticket `issue_id` from open to done: prepares its branch, then
/// implements and reviews it until the review is clean, skipping the ticket
/// when the agent budget runs out; then checks the working tree and the
/// branch, asks for test instructions, and opens a pull request when a
/// branch was created.
#[verifier::spinoff_prover]
#[verifier::rlimit(80)]
pub fn complete_ticket<
    I: IssueTracker,
    S: SourceControl,
    R: RemoteClient,
    A: AgentRunner,
    E: EventSink,
    P: PromptLoader,
    J: JsonDecoder,
>(issue_id: u64, ctx: &mut Context<I, S, R, A, E, P, J>, base_branch: &str) -> (r: Result<(), Error>)
    ensures
        r matches Err(e) ==> ended_by(final(ctx).log(), old(ctx).log().len() as int, e),
        final(ctx).extends(old(ctx)),
        run_laws(
            final(ctx).log(),
            old(ctx).log().len() as int,
            final(ctx).log().len() as int,
            old(ctx).settings(),
        ),
        ticket_ran(
            issue_id,
            base_branch@,
            old(ctx).settings(),
            final(ctx).log(),
            old(ctx).log().len() as int,
            r,
        ),
        r is Ok ==> finished(
            final(ctx).log(),
            old(ctx).log().len() as int,
            issue_id,
            ticket_branch(old(ctx).settings(), issue_id),
        ),
{
    let ghost start = old(ctx).log().len() as int;
    let ghost cfg = old(ctx).settings();
    let ghost branch = ticket_branch(cfg, issue_id);
    let expected = match setup_workspace(issue_id, base_branch, ctx) {
        Err(e) => {
            proof {
                assert(ticket_ran(issue_id, base_branch@, cfg, ctx.log(), start, Err(e))) by {
                    reveal(ticket_ran);
                }
            }
            return Err(e);
        },
        Ok(b) => b,
    };
    let ghost work_start = ctx.log().len() as int;
    let ghost mut bounds: Seq<int> = seq![work_start];
    let ghost mut round_end: int = 0;
    let ghost mut review_at: int = 0;
    loop
        invariant_except_break
            bounds.last() == ctx.log().len(),
        invariant
            ctx.extends(old(ctx)),
            run_laws(ctx.log(), start, ctx.log().len() as int, cfg),
            start == old(ctx).log().len(),
            cfg == old(ctx).settings(),
            branch == ticket_branch(cfg, issue_id),
            expected matches Some(b) ==> start < ctx.log().len() && (ctx.log()[start] matches Call::CreateBranch(
                n,
                f,
                Ok(_),
            ) && n == b@ && f == base_branch@) && created_branch(
                ctx.log()[start],
                b@,
            ) && b@ == branch_name(issue_id),
            expected is Some <==> cfg.merge_strategy != MergeStrategy::Direct,
            work_start == if expected is Some {
                start + 1
            } else {
                start
            },
            bounds.len() >= 1,
            bounds[0] == work_start,
            rounds_ran(issue_id, cfg, ctx.log(), bounds),
        ensures
            start <= review_at && review_at == ctx.log().len() - 1,
            clean_review_at(ctx.log(), review_at, issue_id),
            bounds.len() >= 1,
            bounds[0] == work_start,
            round_end == ctx.log().len(),
            rounds_ran(issue_id, cfg, ctx.log(), bounds),
            round_ran(issue_id, cfg, ctx.log(), bounds.last(), round_end, Ok(false)),
        decreases ctx.budget_left(),
    {
        let ghost before = ctx.log();
        let ghost spent_before = ctx.spent();
        proof {
            ctx.lemma_spent_counts();
        }
        let implemented = implement(issue_id, ctx);
        proof {
            lemma_implement_laws(issue_id, cfg, spent_before, ctx.log(), before.len() as int, implemented);
            lemma_laws_append(before, ctx.log(), start, cfg);
        }
        let ghost implemented_log = ctx.log();
        let outcome = match implemented {
            Err(e) => Err(e),
            Ok(()) => {
                let ghost mid = ctx.log();
                let ghost spent_mid = ctx.spent();
                proof {
                    ctx.lemma_spent_counts();
                }
                let reviewed = review(issue_id, ctx);
                proof {
                    lemma_diff_action_laws(issue_id, "review"@, cfg, spent_mid, ctx.log(), mid.len() as int, reviewed, review_findings());
                    lemma_laws_append(mid, ctx.log(), start, cfg);
                    if reviewed == Ok::<bool, Error>(false) {
                        review_at = mid.len() + 3int;
                        assert(clean_review_at(ctx.log(), review_at, issue_id));
                    }
                }
                reviewed
            },
        };
        let ghost outcome_g = outcome;
        proof {
            let log = ctx.log();
            let a = before.len() as int;
            let m = implemented_log.len() as int;
            lemma_take_prefix(before, log, a);
            assert(before.take(a) =~= before);
            lemma_take_prefix(implemented_log, log, m);
            assert(implemented_log.take(m) =~= implemented_log);
            assert(log.take(log.len() as int) =~= log);
            assert(implement_ran(issue_id, cfg, spent_at(log, a), log.take(m), a, implemented));
            assert(round_ran(issue_id, cfg, log, a, log.len() as int, outcome_g));
            lemma_rounds_extend(issue_id, cfg, before, log, bounds);
        }
        match outcome {
            Ok(false) => {
                proof {
                    round_end = ctx.log().len() as int;
                }
                break;
            },
            Ok(true) => {
                proof {
                    let log = ctx.log();
                    let old_bounds = bounds;
                    bounds = bounds.push(log.len() as int);
                    assert forall|k: int| 0 <= k < bounds.len() - 1 implies #[trigger] round_ran(
                        issue_id,
                        cfg,
                        log,
                        bounds[k],
                        bounds[k + 1],
                        Ok(true),
                    ) by {
                        if k < old_bounds.len() - 1 {
                            assert(bounds[k] == old_bounds[k]);
                            assert(bounds[k + 1] == old_bounds[k + 1]);
                        }
                    }
                }
            },
            Err(e) => {
                let exhausted = match e {
                    Error::BudgetExhausted => true,
                    _ => false,
                };
                let ghost round_log = ctx.log();
                if exhausted && ctx.iterations_used() >= ctx.config().max_iterations {
                    let ghost pre = ctx.log();
                    let skipped = ctx.skip_issue(issue_id);
                    proof {
                        let log = ctx.log();
                        let i = pre.len() as int;
                        assert(log.take(i) =~= pre);
                        assert(call_ok(log, start, i, cfg));
                        lemma_laws_push(pre, Call::Skip(issue_id, skipped), start, cfg);
                        lemma_take_prefix(pre, log, i);
                        assert(pre.take(i) =~= pre);
                        assert(round_failed(issue_id, cfg, log, i, e, skipped));
                        lemma_ticket_worked(issue_id, base_branch@, cfg, branch, round_log, log, bounds, i, outcome_g, skipped);
                        assert(log[start] == round_log[start]);
                        lemma_ticket_ran(issue_id, base_branch@, cfg, log, start, work_start, skipped);
                    }
                    match skipped {
                        Err(e) => return Err(e),
                        Ok(u) => {
                            proof {
                                assert(skipped == Ok::<(), Error>(u));
                                assert(ctx.log().last() == Call::Skip(issue_id, Ok(())));
                            }
                            return Ok(());
                        },
                    }
                }
                proof {
                    let log = ctx.log();
                    let i = log.len() as int;
                    assert(log.take(i) =~= log);
                    assert(round_failed(issue_id, cfg, log, i, e, Err(e)));
                    lemma_ticket_worked(issue_id, base_branch@, cfg, branch, round_log, log, bounds, i, outcome_g, Err(e));
                    lemma_ticket_ran(issue_id, base_branch@, cfg, log, start, work_start, Err(e));
                }
                return Err(e);
            },
        }
    }
    let ghost reviewed_log = ctx.log();
    let ghost reviewed_spent = ctx.spent();
    proof {
        ctx.lemma_spent_counts();
    }
    let checked = check_dirty_state(issue_id, base_branch, ctx);
    let ghost checked_log = ctx.log();
    proof {
        lemma_laws_append(reviewed_log, ctx.log(), start, cfg);
    }
    match checked {
        Err(e) => {
            proof {
                let log = ctx.log();
                lemma_after_review(issue_id, base_branch@, cfg, branch, checked_log, log, round_end, checked, Err(e));
                lemma_ticket_worked(issue_id, base_branch@, cfg, branch, reviewed_log, log, bounds, round_end, Ok(false), Err(e));
                assert(log[start] == reviewed_log[start]);
                lemma_ticket_ran(issue_id, base_branch@, cfg, log, start, work_start, Err(e));
            }
            return Err(e);
        },
        Ok(()) => {},
    }
    if let Some(expected_branch) = &expected {
        let ghost pre = ctx.log();
        let current = ctx.current_branch();
        proof {
            assert(call_ok(ctx.log(), start, pre.len() as int, cfg));
            lemma_laws_push(pre, Call::CurrentBranch(current), start, cfg);
        }
        let ghost current_g = current;
        let actual = match current {
            Err(e) => {
                proof {
                    let log = ctx.log();
                    assert(branch_checked(issue_id, cfg, branch, log, checked_log.len() as int, Err(e)));
                    lemma_after_review(issue_id, base_branch@, cfg, branch, checked_log, log, round_end, checked, Err(e));
                    lemma_ticket_worked(issue_id, base_branch@, cfg, branch, reviewed_log, log, bounds, round_end, Ok(false), Err(e));
                    assert(log[start] == reviewed_log[start]);
                    lemma_ticket_ran(issue_id, base_branch@, cfg, log, start, work_start, Err(e));
                }
                return Err(e);
            },
            Ok(a) => a,
        };
        if !str_eq(actual.as_str(), expected_branch.as_str()) {
            let r = Err(Error::BranchMismatch { expected: expected_branch.clone(), actual });
            proof {
                let log = ctx.log();
                assert(branch_checked(issue_id, cfg, branch, log, checked_log.len() as int, r));
                lemma_after_review(issue_id, base_branch@, cfg, branch, checked_log, log, round_end, checked, r);
                lemma_ticket_worked(issue_id, base_branch@, cfg, branch, reviewed_log, log, bounds, round_end, Ok(false), r);
                assert(log[start] == reviewed_log[start]);
                lemma_ticket_ran(issue_id, base_branch@, cfg, log, start, work_start, r);
            }
            return r;
        }
    }
    let ghost before_instructions = ctx.log();
    let ghost spent_instructions = ctx.spent();
    proof {
        ctx.lemma_spent_counts();
        assert(reviewed_spent == spent_instructions);
        assert(reviewed_spent == agent_runs(reviewed_log));
        lemma_agent_runs_extend(reviewed_log, before_instructions);
        assert(before_instructions[review_at] == reviewed_log[review_at]);
        assert(before_instructions[review_at - 1] == reviewed_log[review_at - 1]);
        assert(before_instructions[review_at - 3] == reviewed_log[review_at - 3]);
        assert(clean_review_at(before_instructions, review_at, issue_id));
    }
    let instructed = generate_test_instructions(issue_id, ctx);
    let ghost done_log = ctx.log();
    proof {
        lemma_instructions_laws(issue_id, cfg, spent_instructions, before_instructions, ctx.log(), start, review_at, instructed, no_value());
    }
    match instructed {
        Err(e) => {
            proof {
                let log = ctx.log();
                lemma_instructed(issue_id, cfg, branch, before_instructions, done_log, log, instructed, Err(e));
                assert(branch_checked(issue_id, cfg, branch, log, checked_log.len() as int, Err(e)));
                lemma_after_review(issue_id, base_branch@, cfg, branch, checked_log, log, round_end, checked, Err(e));
                lemma_ticket_worked(issue_id, base_branch@, cfg, branch, reviewed_log, log, bounds, round_end, Ok(false), Err(e));
                assert(log[start] == reviewed_log[start]);
                lemma_ticket_ran(issue_id, base_branch@, cfg, log, start, work_start, Err(e));
            }
            return Err(e);
        },
        Ok(()) => {},
    }
    proof {
        assert(instructions_given(ctx.log(), before_instructions.len() as int, issue_id));
    }
    let r: Result<(), Error> = if let Some(branch_str) = expected {
        let ghost pre = ctx.log();
        let opened = create_pr(issue_id, branch_str.as_str(), ctx);
        proof {
            assert(ctx.log()[start] == pre[start]);
            assert(created_branch(ctx.log()[start], branch_str@));
            assert(start < pre.len());
            assert(ctx.log()[pre.len() as int] == Call::CreatePr(pr_title(issue_id), pr_body(issue_id), branch_str@, opened));
            crate::laws::lemma_pr_ok(ctx.log(), start, pre.len() as int, start, branch_str@);
            assert(call_ok(ctx.log(), start, pre.len() as int, cfg));
            lemma_laws_push(pre, Call::CreatePr(pr_title(issue_id), pr_body(issue_id), branch_str@, opened), start, cfg);
            let k = before_instructions.len() as int;
            assert(ctx.log()[k] == pre[k]);
            assert(ctx.log()[k + 2] == pre[k + 2]);
            assert(ctx.log()[k + 3] == pre[k + 3]);
            assert(instructions_given(ctx.log(), k, issue_id));
        }
        match opened {
            Err(e) => Err(e),
            Ok(_) => Ok(()),
        }
    } else {
        Ok(())
    };
    proof {
        let log = ctx.log();
        lemma_instructed(issue_id, cfg, branch, before_instructions, done_log, log, instructed, r);
        assert(branch_checked(issue_id, cfg, branch, log, checked_log.len() as int, r));
        lemma_after_review(issue_id, base_branch@, cfg, branch, checked_log, log, round_end, checked, r);
        lemma_ticket_worked(issue_id, base_branch@, cfg, branch, reviewed_log, log, bounds, round_end, Ok(false), r);
        assert(log[start] == reviewed_log[start]);
        lemma_ticket_ran(issue_id, base_branch@, cfg, log, start, work_start, r);
    }
    r
}

// ---------------------------------------------------------------------------
// Features

/// The issues whose ids are not among `seen`.
pub open spec fn unseen(seen: Seq<u64>) -> spec_fn(Issue) -> bool {
    |i: Issue| !seen.contains(i.id)
}

/// The ids of `issues`, in order.
pub open spec fn ids_of(issues: Seq<Issue>) -> Seq<u64> {
    issues.map_values(|i: Issue| i.id)
}

fn issue_ids(issues: &Vec<Issue>) -> (r: Vec<u64>)
    ensures
        r@ == ids_of(issues@),
{
    let mut r: Vec<u64> = Vec::new();
    let mut k: usize = 0;
    while k < issues.len()
        invariant
            k <= issues@.len(),
            r@ == ids_of(issues@.take(k as int)),
        decreases issues.len() - k,
    {
        r.push(issues[k].id);
        assert(ids_of(issues@.take(k + 1)) =~= ids_of(issues@.take(k as int)).push(issues@[k as int].id));
        k = k + 1;
    }
    assert(issues@.take(issues@.len() as int) =~= issues@);
    r
}

fn contains_id(ids: &Vec<u64>, id: u64) -> (r: bool)
    ensures
        r == ids@.contains(id),
{
    let mut k: usize = 0;
    while k < ids.len()
        invariant
            k <= ids@.len(),
            forall|j: int| 0 <= j < k ==> ids@[j] != id,
        decreases ids.len() - k,
    {
        if ids[k] == id {
            return true;
        }
        k = k + 1;
    }
    false
}

/// The issues of `all` whose ids are not among `seen`, in order.
pub fn fresh_issues(all: Vec<Issue>, seen: &Vec<u64>) -> (r: Vec<Issue>)
    ensures
        r@ == all@.filter(unseen(seen@)),
{
    let ghost whole = all@;
    let mut kept: Vec<Issue> = Vec::new();
    for issue in it: all.into_iter()
        invariant
            it.seq() == whole,
            kept@ == whole.take(it.index() as int).filter(unseen(seen@)),
    {
        let ghost k = it.index() as int;
        proof {
            reveal(Seq::filter);
            assert(whole.take(k + 1).drop_last() =~= whole.take(k));
        }
        if !contains_id(seen, issue.id) {
            kept.push(issue);
        }
    }
    proof {
        assert(whole.take(whole.len() as int) =~= whole);
    }
    kept
}

/// The calls of `log` from `a` on carry issue `id` through on a branch
/// forked from `base`, whatever its kind: the tracker is asked for the kind,
/// then the issue is carried through as a ticket ([`ticket_ran`]) or as a
/// feature ([`feature_ran`]). `r` is the outcome.
pub open spec fn issue_ran(
    id: u64,
    base: Seq<char>,
    cfg: RunConfig,
    log: Seq<Call>,
    a: int,
    r: Result<(), Error>,
) -> bool
    decreases log.len() - a, 2int, 0int,
{
    if 0 <= a < log.len() {
        log[a] matches Call::KindOf(i, kinded) && i == id && match kinded {
            Err(e) => log.len() == a + 1 && r == Err::<(), Error>(e),
            Ok(IssueType::Ticket) => ticket_ran(id, base, cfg, log, a + 1, r),
            Ok(IssueType::Feature) => feature_ran(id, base, cfg, log, a + 1, r),
        }
    } else {
        false
    }
}

/// What the first issues of a plan were carried through stays true as more
/// calls are logged.
pub proof fn lemma_carried_prefix_extend(
    plan: Seq<u64>,
    base: Seq<char>,
    cfg: RunConfig,
    log1: Seq<Call>,
    log2: Seq<Call>,
    m: int,
    bounds: Seq<int>,
    k: int,
)
    requires
        carried_prefix(plan, base, cfg, log1, m, bounds, k),
        prefix_of(log1, log2),
    ensures
        carried_prefix(plan, base, cfg, log2, m, bounds, k),
    decreases k,
{
    if k > 0 {
        assert(k < bounds.len() && bounds[k] <= log1.len());
        lemma_carried_prefix_extend(plan, base, cfg, log1, log2, m, bounds, k - 1);
        lemma_take_prefix(log1, log2, bounds[k]);
    }
}

/// Bounds that agree up to index `k` describe the same carried issues.
pub proof fn lemma_carried_prefix_bounds(
    plan: Seq<u64>,
    base: Seq<char>,
    cfg: RunConfig,
    log: Seq<Call>,
    m: int,
    bounds1: Seq<int>,
    bounds2: Seq<int>,
    k: int,
)
    requires
        carried_prefix(plan, base, cfg, log, m, bounds1, k),
        k < bounds1.len(),
        k < bounds2.len(),
        forall|j: int| 0 <= j <= k ==> #[trigger] bounds2[j] == bounds1[j],
    ensures
        carried_prefix(plan, base, cfg, log, m, bounds2, k),
    decreases k,
{
    if k > 0 {
        assert(bounds2[k] == bounds1[k]);
        assert(bounds2[k - 1] == bounds1[k - 1]);
        lemma_carried_prefix_bounds(plan, base, cfg, log, m, bounds1, bounds2, k - 1);
    }
}

/// One more issue carried through after the first `k`.
pub proof fn lemma_carried_prefix_push(
    plan: Seq<u64>,
    base: Seq<char>,
    cfg: RunConfig,
    log: Seq<Call>,
    m: int,
    bounds: Seq<int>,
    k: int,
    b: int,
)
    requires
        carried_prefix(plan, base, cfg, log, m, bounds, k),
        bounds.len() == k + 1,
        0 <= m,
        0 <= k < plan.len(),
        m <= bounds.last() < b <= log.len(),
        issue_ran(plan[k], base, cfg, log.take(b), bounds.last(), Ok(())),
    ensures
        carried_prefix(plan, base, cfg, log, m, bounds.push(b), k + 1),
{
    let bounds2 = bounds.push(b);
    assert forall|j: int| 0 <= j <= k implies #[trigger] bounds2[j] == bounds[j] by {}
    lemma_carried_prefix_bounds(plan, base, cfg, log, m, bounds, bounds2, k);
    assert(bounds2[k + 1] == b);
    assert(bounds2[k] == bounds.last());
}

/// The first `k` issues of `plan` were carried through one after the other
/// from index `m` of `log`, issue `j` between `bounds[j]` and `bounds[j + 1]`.
pub open spec fn carried_prefix(
    plan: Seq<u64>,
    base: Seq<char>,
    cfg: RunConfig,
    log: Seq<Call>,
    m: int,
    bounds: Seq<int>,
    k: int,
) -> bool
    decreases log.len() - m, 3int, k,
{
    if k <= 0 {
        true
    } else if k < bounds.len() && k <= plan.len() && 0 <= m <= bounds[k - 1] < bounds[k] <= log.len() {
        carried_prefix(plan, base, cfg, log, m, bounds, k - 1) && issue_ran(
            plan[k - 1],
            base,
            cfg,
            log.take(bounds[k]),
            bounds[k - 1],
            Ok(()),
        )
    } else {
        false
    }
}

/// The issues of `plan` were carried through one after the other from index
/// `m` of `log` ([`carried_prefix`]); either all of them, to the end of
/// `log`, and `r` is success, or the run stopped at the first issue that
/// failed, with its error.
pub open spec fn issues_ran(
    plan: Seq<u64>,
    base: Seq<char>,
    cfg: RunConfig,
    log: Seq<Call>,
    m: int,
    bounds: Seq<int>,
    r: Result<(), Error>,
) -> bool
    decreases log.len() - m, 4int, 0int,
{
    if 1 <= bounds.len() <= plan.len() + 1 && bounds[0] == m {
        carried_prefix(plan, base, cfg, log, m, bounds, bounds.len() - 1) && if bounds.len()
            == plan.len() + 1 {
            bounds.last() == log.len() && r is Ok
        } else if m <= bounds.last() < log.len() {
            r is Err && issue_ran(plan[bounds.len() - 1], base, cfg, log, bounds.last(), r)
        } else {
            false
        }
    } else {
        false
    }
}

/// The calls of `log` from `s` on work through `issues` on branches forked
/// from `base`: the agent plans their order ([`plan_order_ran`]), then the
/// planned issues are carried through in that order ([`issues_ran`]).
pub open spec fn ordered_ran(
    issues: Seq<Issue>,
    base: Seq<char>,
    cfg: RunConfig,
    log: Seq<Call>,
    s: int,
    r: Result<(), Error>,
) -> bool
    decreases log.len() - s, 0int, 0int,
{
    exists|m: int, rp: Result<Vec<u64>, Error>|
        #![trigger plan_order_ran(issue_views(issues), cfg, spent_at(log, s), log.take(m), s, rp)]
        0 <= s < m <= log.len() && plan_order_ran(
            issue_views(issues),
            cfg,
            spent_at(log, s),
            log.take(m),
            s,
            rp,
        ) && match rp {
            Err(e) => m == log.len() && r == Err::<(), Error>(e),
            Ok(plan) => exists|bounds: Seq<int>|
                #![trigger bounds.len()]
                issues_ran(plan@, base, cfg, log, m, bounds, r),
        }
}

/// An issue whose kind was asked for at index `a` of `log` and then carried
/// through as that kind.
pub proof fn lemma_issue_ran_intro(
    id: u64,
    base: Seq<char>,
    cfg: RunConfig,
    log: Seq<Call>,
    a: int,
    kinded: Result<IssueType, Error>,
    r: Result<(), Error>,
)
    requires
        0 <= a < log.len(),
        log[a] == Call::KindOf(id, kinded),
        match kinded {
            Err(e) => log.len() == a + 1 && r == Err::<(), Error>(e),
            Ok(IssueType::Ticket) => ticket_ran(id, base, cfg, log, a + 1, r),
            Ok(IssueType::Feature) => feature_ran(id, base, cfg, log, a + 1, r),
        },
    ensures
        issue_ran(id, base, cfg, log, a, r),
{
}

/// The plan's issues up to the one that failed.
pub proof fn lemma_issues_failed(
    plan: Seq<u64>,
    base: Seq<char>,
    cfg: RunConfig,
    log: Seq<Call>,
    m: int,
    bounds: Seq<int>,
    k: int,
    r: Result<(), Error>,
)
    requires
        carried_prefix(plan, base, cfg, log, m, bounds, k),
        bounds.len() == k + 1,
        0 <= k < plan.len(),
        bounds[0] == m,
        m <= bounds.last() < log.len(),
        r is Err,
        issue_ran(plan[k], base, cfg, log, bounds.last(), r),
    ensures
        issues_ran(plan, base, cfg, log, m, bounds, r),
{
}

/// Every issue of the plan carried through.
pub proof fn lemma_issues_done(
    plan: Seq<u64>,
    base: Seq<char>,
    cfg: RunConfig,
    log: Seq<Call>,
    m: int,
    bounds: Seq<int>,
)
    requires
        carried_prefix(plan, base, cfg, log, m, bounds, plan.len() as int),
        bounds.len() == plan.len() + 1,
        bounds[0] == m,
        bounds.last() == log.len(),
    ensures
        issues_ran(plan, base, cfg, log, m, bounds, Ok(())),
{
}

/// Working through issues whose planned order was decoded at the end of the
/// first `m` calls, and whose planned issues were then carried through.
pub proof fn lemma_ordered_intro(
    issues: Seq<Issue>,
    base: Seq<char>,
    cfg: RunConfig,
    log: Seq<Call>,
    s: int,
    m: int,
    rp: Result<Vec<u64>, Error>,
    plan: Seq<u64>,
    bounds: Seq<int>,
    r: Result<(), Error>,
)
    requires
        0 <= s < m <= log.len(),
        plan_order_ran(issue_views(issues), cfg, spent_at(log, s), log.take(m), s, rp),
        rp matches Ok(p) && p@ == plan,
        issues_ran(plan, base, cfg, log, m, bounds, r),
    ensures
        ordered_ran(issues, base, cfg, log, s, r),
{
    let p = rp->Ok_0;
    assert(issues_ran(p@, base, cfg, log, m, bounds, r));
    assert(bounds.len() >= 1);
}

/// The calls of `log` from `s` on carry feature `id` through, from `base`:
/// under the `feature-branch` strategy the feature's branch is created first
/// and its children fork from it; then [`feature_worked`].
pub open spec fn feature_ran(
    id: u64,
    base: Seq<char>,
    cfg: RunConfig,
    log: Seq<Call>,
    s: int,
    r: Result<(), Error>,
) -> bool
    decreases log.len() - s, 1int, 0int,
{
    if cfg.merge_strategy == MergeStrategy::FeatureBranch {
        if 0 <= s < log.len() {
            log[s] matches Call::CreateBranch(name, from, created) && name == branch_name(id) && from
                == base && match created {
                Err(e) => log.len() == s + 1 && r == Err::<(), Error>(e),
                Ok(_) => feature_worked(
                    id,
                    branch_name(id),
                    cfg,
                    Some(branch_name(id)),
                    log,
                    s + 1,
                    r,
                ),
            }
        } else {
            false
        }
    } else {
        feature_worked(id, base, cfg, None, log, s, r)
    }
}

/// The calls of `log` from `a` on work on feature `id`: its children are
/// fetched and worked through from `child_base` ([`ordered_ran`]), then the
/// feature is reviewed ([`feature_reviewed`]).
pub open spec fn feature_worked(
    id: u64,
    child_base: Seq<char>,
    cfg: RunConfig,
    branch: Option<Seq<char>>,
    log: Seq<Call>,
    a: int,
    r: Result<(), Error>,
) -> bool
    decreases log.len() - a, 0int, 0int,
{
    if 0 <= a < log.len() {
        log[a] matches Call::GetChildren(i, children) && i == id && match children {
            Err(e) => log.len() == a + 1 && r == Err::<(), Error>(e),
            Ok(initial) => exists|m: int|
                #![trigger log.take(m)]
                a + 1 < m <= log.len() && ((m == log.len() && r is Err && ordered_ran(
                    initial@,
                    child_base,
                    cfg,
                    log.take(m),
                    a + 1,
                    r,
                )) || (ordered_ran(initial@, child_base, cfg, log.take(m), a + 1, Ok(()))
                    && feature_reviewed(id, child_base, cfg, branch, ids_of(initial@), log, m, r))),
        }
    } else {
        false
    }
}

/// The calls of `log` from `a` on review feature `id` after its children
/// `seen` were worked through: a clean review leads to [`instructed`]; a
/// review with in-scope findings to [`second_round`].
pub open spec fn feature_reviewed(
    id: u64,
    child_base: Seq<char>,
    cfg: RunConfig,
    branch: Option<Seq<char>>,
    seen: Seq<u64>,
    log: Seq<Call>,
    a: int,
    r: Result<(), Error>,
) -> bool
    decreases log.len() - a, 0int, 0int,
{
    exists|m: int, rv: Result<bool, Error>|
        #![trigger diff_action_ran(id, "feature_review"@, cfg, spent_at(log, a), log.take(m), a, rv, feature_findings())]
        0 <= a < m <= log.len() && diff_action_ran(
            id,
            "feature_review"@,
            cfg,
            spent_at(log, a),
            log.take(m),
            a,
            rv,
            feature_findings(),
        ) && match rv {
            Err(e) => m == log.len() && r == Err::<(), Error>(e),
            Ok(false) => instructed(id, cfg, branch, log, m, r),
            Ok(true) => second_round(id, child_base, cfg, branch, seen, log, m, r),
        }
}

/// The calls of `log` from `a` on follow a feature review with in-scope
/// findings: the children are fetched again, those not among `seen` (created
/// since) are worked through, and the feature is reviewed once more
/// ([`rereviewed`]).
pub open spec fn second_round(
    id: u64,
    child_base: Seq<char>,
    cfg: RunConfig,
    branch: Option<Seq<char>>,
    seen: Seq<u64>,
    log: Seq<Call>,
    a: int,
    r: Result<(), Error>,
) -> bool
    decreases log.len() - a, 0int, 0int,
{
    if 0 <= a < log.len() {
        log[a] matches Call::GetChildren(i, children) && i == id && match children {
            Err(e) => log.len() == a + 1 && r == Err::<(), Error>(e),
            Ok(all) => exists|m: int|
                #![trigger log.take(m)]
                a + 1 < m <= log.len() && ((m == log.len() && r is Err && ordered_ran(
                    all@.filter(unseen(seen)),
                    child_base,
                    cfg,
                    log.take(m),
                    a + 1,
                    r,
                )) || (ordered_ran(all@.filter(unseen(seen)), child_base, cfg, log.take(m), a + 1, Ok(()))
                    && rereviewed(id, cfg, branch, log, m, r))),
        }
    } else {
        false
    }
}

/// The calls of `log` from `a` on review feature `id` a second time: a clean
/// review leads to [`instructed`]; findings that remain leave the feature to
/// a person (it is skipped, and `r` is what the skip gave back).
pub open spec fn rereviewed(
    id: u64,
    cfg: RunConfig,
    branch: Option<Seq<char>>,
    log: Seq<Call>,
    a: int,
    r: Result<(), Error>,
) -> bool {
    exists|m: int, rv: Result<bool, Error>|
        #![trigger diff_action_ran(id, "feature_review"@, cfg, spent_at(log, a), log.take(m), a, rv, feature_findings())]
        0 <= a < m <= log.len() && diff_action_ran(
            id,
            "feature_review"@,
            cfg,
            spent_at(log, a),
            log.take(m),
            a,
            rv,
            feature_findings(),
        ) && match rv {
            Err(e) => m == log.len() && r == Err::<(), Error>(e),
            Ok(false) => instructed(id, cfg, branch, log, m, r),
            Ok(true) => log.len() == m + 1 && (log[m] matches Call::Skip(i, skipped) && i == id && r
                == skipped),
        }
}

/// A feature review at the end of `reviewed`, after the calls of `before`,
/// followed by the rest of `log`.
pub proof fn lemma_feature_review_step(
    id: u64,
    cfg: RunConfig,
    before: Seq<Call>,
    reviewed: Seq<Call>,
    log: Seq<Call>,
    rv: Result<bool, Error>,
)
    requires
        prefix_of(before, reviewed),
        prefix_of(reviewed, log),
        before.len() < reviewed.len(),
        diff_action_ran(
            id,
            "feature_review"@,
            cfg,
            agent_runs(before),
            reviewed,
            before.len() as int,
            rv,
            feature_findings(),
        ),
    ensures
        diff_action_ran(
            id,
            "feature_review"@,
            cfg,
            spent_at(log, before.len() as int),
            log.take(reviewed.len() as int),
            before.len() as int,
            rv,
            feature_findings(),
        ),
{
    let a = before.len() as int;
    assert(log.take(reviewed.len() as int) =~= reviewed);
    assert(log.take(a) =~= before);
}

/// Working through children, from index `a` of `ordered`, followed by the rest of `log`.
pub proof fn lemma_ordered_step(
    issues: Seq<Issue>,
    base: Seq<char>,
    cfg: RunConfig,
    ordered: Seq<Call>,
    log: Seq<Call>,
    a: int,
    ro: Result<(), Error>,
)
    requires
        prefix_of(ordered, log),
        ordered_ran(issues, base, cfg, ordered, a, ro),
    ensures
        a < ordered.len(),
        ordered_ran(issues, base, cfg, log.take(ordered.len() as int), a, ro),
{
    assert(log.take(ordered.len() as int) =~= ordered);
}

/// Carries issue `issue_id` through from `base_branch`, whatever its kind:
/// asks the tracker for the kind, then completes it as a ticket or as a
/// feature.
#[verifier::spinoff_prover]
pub fn carry_issue<
    I: IssueTracker,
    S: SourceControl,
    R: RemoteClient,
    A: AgentRunner,
    E: EventSink,
    P: PromptLoader,
    J: JsonDecoder,
>(issue_id: u64, ctx: &mut Context<I, S, R, A, E, P, J>, base_branch: &str) -> (r: Result<(), Error>)
    ensures
        r matches Err(e) ==> ended_by(final(ctx).log(), old(ctx).log().len() as int, e),
        final(ctx).extends(old(ctx)),
        run_laws(
            final(ctx).log(),
            old(ctx).log().len() as int,
            final(ctx).log().len() as int,
            old(ctx).settings(),
        ),
        issue_ran(
            issue_id,
            base_branch@,
            old(ctx).settings(),
            final(ctx).log(),
            old(ctx).log().len() as int,
            r,
        ),
    decreases old(ctx).budget_left(), 2nat,
{
    let ghost start = old(ctx).log().len() as int;
    let ghost cfg = old(ctx).settings();
    let kind = ctx.issue_type(issue_id);
    let ghost kind_g = kind;
    proof {
        lemma_laws_empty(old(ctx).log(), start, cfg);
        lemma_laws_push(old(ctx).log(), Call::KindOf(issue_id, kind), start, cfg);
    }
    let kind = match kind {
        Err(e) => {
            proof {
                lemma_issue_ran_intro(issue_id, base_branch@, cfg, ctx.log(), start, kind_g, Err(e));
            }
            return Err(e);
        },
        Ok(kind) => kind,
    };
    let ghost before = ctx.log();
    let done = match kind {
        IssueType::Ticket => complete_ticket(issue_id, ctx, base_branch),
        IssueType::Feature => complete_feature(issue_id, ctx, base_branch),
    };
    proof {
        lemma_laws_append(before, ctx.log(), start, cfg);
        assert(ctx.log()[start] == before[start]);
        lemma_issue_ran_intro(issue_id, base_branch@, cfg, ctx.log(), start, kind_g, done);
    }
    done
}

/// Works through `issues` in the order the agent plans: tickets are
/// completed, features completed with their children, all on branches
/// forked from `base_branch`. The first issue that fails ends the run.
#[verifier::spinoff_prover]
#[verifier::rlimit(80)]
pub fn execute_ordered<
    I: IssueTracker,
    S: SourceControl,
    R: RemoteClient,
    A: AgentRunner,
    E: EventSink,
    P: PromptLoader,
    J: JsonDecoder,
>(issues: &[Issue], ctx: &mut Context<I, S, R, A, E, P, J>, base_branch: &str) -> (r: Result<(), Error>)
    ensures
        r matches Err(e) ==> ended_by(final(ctx).log(), old(ctx).log().len() as int, e),
        final(ctx).extends(old(ctx)),
        run_laws(
            final(ctx).log(),
            old(ctx).log().len() as int,
            final(ctx).log().len() as int,
            old(ctx).settings(),
        ),
        ordered_ran(
            issues@,
            base_branch@,
            old(ctx).settings(),
            final(ctx).log(),
            old(ctx).log().len() as int,
            r,
        ),
    decreases old(ctx).budget_left(), 0nat,
{
    let ghost start = old(ctx).log().len() as int;
    let ghost cfg = old(ctx).settings();
    let ghost spent0 = old(ctx).spent();
    let ghost log0 = old(ctx).log();
    proof {
        ctx.lemma_spent_counts();
    }
    let planned = plan_order(issues, ctx);
    let ghost planned_g = planned;
    let ghost plan_log = ctx.log();
    let ghost m = plan_log.len() as int;
    proof {
        lemma_plan_order_laws(issue_views(issues@), cfg, spent0, ctx.log(), start, planned);
        assert(plan_log.take(start) =~= log0);
        assert(plan_log.take(m) =~= plan_log);
        assert(plan_order_ran(issue_views(issues@), cfg, spent_at(plan_log, start), plan_log.take(m), start, planned_g));
    }
    let ids = match planned {
        Err(e) => {
            proof {
                            assert(ordered_ran(issues@, base_branch@, cfg, plan_log, start, Err(e)));
            }
            return Err(e);
        },
        Ok(ids) => ids,
    };
    proof {
        assert(ctx.log()[start + 2] matches Call::DecodePlan(_, Ok(plan)) && plan@ == ids@);
    }
    let ghost mut bounds: Seq<int> = seq![m];
    let mut k: usize = 0;
    while k < ids.len()
        invariant
            ctx.extends(old(ctx)),
            run_laws(ctx.log(), start, ctx.log().len() as int, cfg),
            start == old(ctx).log().len(),
            cfg == old(ctx).settings(),
            ctx.budget_left() < old(ctx).budget_left(),
            k <= ids@.len(),
            m == start + 3,
            m <= ctx.log().len(),
            prefix_of(plan_log, ctx.log()),
            plan_log.len() == m,
            planned_g matches Ok(plan) && plan@ == ids@,
            plan_order_ran(issue_views(issues@), cfg, spent_at(plan_log, start), plan_log.take(m), start, planned_g),
            ctx.log()[start + 2] matches Call::DecodePlan(_, Ok(plan)) && plan@ == ids@,
            bounds.len() == k + 1,
            bounds[0] == m,
            m <= bounds.last(),
            bounds.last() == ctx.log().len(),
            carried_prefix(ids@, base_branch@, cfg, ctx.log(), m, bounds, k as int),
        decreases ids.len() - k,
    {
        let id = ids[k];
        let ghost pre = ctx.log();
        let done = carry_issue(id, ctx, base_branch);
        let ghost done_g = done;
        proof {
            lemma_laws_append(pre, ctx.log(), start, cfg);
            let log = ctx.log();
            lemma_carried_prefix_extend(ids@, base_branch@, cfg, pre, log, m, bounds, k as int);
            lemma_take_prefix(plan_log, log, m);
            lemma_take_prefix(plan_log, log, start);
        }
        match done {
            Err(e) => {
                proof {
                    let log = ctx.log();
                    lemma_issues_failed(ids@, base_branch@, cfg, log, m, bounds, k as int, Err(e));
                    assert(plan_order_ran(issue_views(issues@), cfg, spent_at(log, start), log.take(m), start, planned_g));
                    lemma_ordered_intro(issues@, base_branch@, cfg, log, start, m, planned_g, ids@, bounds, Err(e));
                }
                return Err(e);
            },
            Ok(u) => {
                proof {
                    assert(done_g == Ok::<(), Error>(u));
                }
            },
        }
        proof {
            let log = ctx.log();
            let a = pre.len() as int;
            assert(log.take(log.len() as int) =~= log);
            assert(id == ids@[k as int]);
            assert(done_g == Ok::<(), Error>(()));
            assert(issue_ran(ids@[k as int], base_branch@, cfg, log.take(log.len() as int), bounds.last(), Ok(())));
            lemma_carried_prefix_push(ids@, base_branch@, cfg, log, m, bounds, k as int, log.len() as int);
            bounds = bounds.push(log.len() as int);
        }
        k = k + 1;
    }
    proof {
        let log = ctx.log();
        lemma_issues_done(ids@, base_branch@, cfg, log, m, bounds);
        lemma_take_prefix(plan_log, log, m);
        lemma_take_prefix(plan_log, log, start);
        assert(plan_order_ran(issue_views(issues@), cfg, spent_at(log, start), log.take(m), start, planned_g));
        lemma_ordered_intro(issues@, base_branch@, cfg, log, start, m, planned_g, ids@, bounds, Ok(()));
    }
    Ok(())
}

/// Carries feature `issue_id` from open to done: under the `feature-branch`
/// strategy creates the feature's branch, from which its children fork;
/// completes its children; reviews the feature, and when the review reports
/// in-scope findings completes the children created since and reviews again,
/// skipping the feature if findings remain; then asks for test instructions
/// and, under `feature-branch`, opens the feature's pull request.
#[verifier::spinoff_prover]
#[verifier::rlimit(80)]
pub fn complete_feature<
    I: IssueTracker,
    S: SourceControl,
    R: RemoteClient,
    A: AgentRunner,
    E: EventSink,
    P: PromptLoader,
    J: JsonDecoder,
>(issue_id: u64, ctx: &mut Context<I, S, R, A, E, P, J>, base_branch: &str) -> (r: Result<(), Error>)
    ensures
        r matches Err(e) ==> ended_by(final(ctx).log(), old(ctx).log().len() as int, e),
        final(ctx).extends(old(ctx)),
        run_laws(
            final(ctx).log(),
            old(ctx).log().len() as int,
            final(ctx).log().len() as int,
            old(ctx).settings(),
        ),
        feature_ran(
            issue_id,
            base_branch@,
            old(ctx).settings(),
            final(ctx).log(),
            old(ctx).log().len() as int,
            r,
        ),
        r is Ok ==> finished(
            final(ctx).log(),
            old(ctx).log().len() as int,
            issue_id,
            feature_branch(old(ctx).settings(), issue_id),
        ),
    decreases old(ctx).budget_left(), 1nat,
{
    proof {
        }
    let ghost start = old(ctx).log().len() as int;
    let ghost cfg = old(ctx).settings();
    let ghost branch = feature_branch(cfg, issue_id);
    let own_branch = match ctx.config().merge_strategy {
        MergeStrategy::FeatureBranch => true,
        _ => false,
    };
    let child_base = if own_branch {
        let branch = feature_branch_name(issue_id);
        let created = ctx.create_branch(branch.as_str(), base_branch);
        proof {
            assert(call_ok(ctx.log(), start, start, cfg));
            lemma_laws_push(old(ctx).log(), Call::CreateBranch(branch@, base_branch@, created), start, cfg);
        }
        match created {
            Err(e) => {
                proof {
                    assert(feature_ran(issue_id, base_branch@, cfg, ctx.log(), start, Err(e)));
                }
                return Err(e);
            },
            Ok(()) => {},
        }
        branch
    } else {
        proof {
            lemma_laws_empty(ctx.log(), start, cfg);
        }
        base_branch.to_string()
    };
    assert(own_branch ==> created_branch(ctx.log()[start], child_base@));
    let ghost work_start = ctx.log().len() as int;
    proof {
        assert(own_branch == (cfg.merge_strategy == MergeStrategy::FeatureBranch));
        assert(own_branch ==> (ctx.log()[start] matches Call::CreateBranch(n, f, Ok(_)) && n == branch_name(issue_id) && f == base_branch@));
        assert(work_start == if own_branch { start + 1 } else { start });
        assert(child_base@ == if own_branch { branch_name(issue_id) } else { base_branch@ });
    }
    let ghost pre = ctx.log();
    let children = ctx.get_children(issue_id);
    let ghost children_g = children;
    proof {
        assert(call_ok(ctx.log(), start, pre.len() as int, cfg));
        lemma_laws_push(pre, Call::GetChildren(issue_id, children), start, cfg);
    }
    let initial = match children {
        Err(e) => {
            proof {
                let log = ctx.log();
                assert(feature_worked(issue_id, child_base@, cfg, branch, log, work_start, Err(e)));
                assert(feature_ran(issue_id, base_branch@, cfg, log, start, Err(e)));
            }
            return Err(e);
        },
        Ok(c) => c,
    };
    let initial_ids = issue_ids(&initial);
    let ghost before = ctx.log();
    proof {
        assert(children_g == Ok::<Vec<Issue>, Error>(initial));
        assert(before[work_start] == Call::GetChildren(issue_id, children_g));
    }
    let done = execute_ordered(initial.as_slice(), ctx, child_base.as_str());
    let ghost ordered_log = ctx.log();
    proof {
        lemma_laws_append(before, ctx.log(), start, cfg);
    }
    match done {
        Err(e) => {
            proof {
                let log = ctx.log();
                lemma_ordered_step(initial@, child_base@, cfg, ordered_log, log, work_start + 1, done);
                assert(log[work_start] == before[work_start]);
                assert(feature_worked(issue_id, child_base@, cfg, branch, log, work_start, Err(e)));
                assert(feature_ran(issue_id, base_branch@, cfg, log, start, Err(e)));
            }
            return Err(e);
        },
        Ok(()) => {},
    }
    let ghost before_review = ctx.log();
    let ghost spent_review = ctx.spent();
    proof {
        ctx.lemma_spent_counts();
    }
    let reviewed = feature_review(issue_id, ctx);
    let ghost reviewed_g = reviewed;
    let ghost reviewed_log = ctx.log();
    proof {
        lemma_diff_action_laws(issue_id, "feature_review"@, cfg, spent_review, ctx.log(), before_review.len() as int, reviewed, feature_findings());
        lemma_laws_append(before_review, ctx.log(), start, cfg);
    }
    let ghost mut review_at: int = before_review.len() + 3int;
    let findings = match reviewed {
        Err(e) => {
            proof {
                let log = ctx.log();
                lemma_feature_review_step(issue_id, cfg, before_review, reviewed_log, log, reviewed_g);
                assert(feature_reviewed(issue_id, child_base@, cfg, branch, ids_of(initial@), log, ordered_log.len() as int, Err(e)));
                lemma_ordered_step(initial@, child_base@, cfg, ordered_log, log, work_start + 1, done);
                assert(log[work_start] == before[work_start]);
                assert(feature_worked(issue_id, child_base@, cfg, branch, log, work_start, Err(e)));
                assert(feature_ran(issue_id, base_branch@, cfg, log, start, Err(e)));
            }
            return Err(e);
        },
        Ok(f) => f,
    };
    proof {
        if !findings {
            assert(clean_review_at(ctx.log(), review_at, issue_id));
        }
    }
    let ghost mut second_children: Result<Vec<Issue>, Error> = Err(Error::BudgetExhausted);
    let ghost mut second_ordered_log: Seq<Call> = Seq::empty();
    let ghost mut second_done: Result<(), Error> = Ok(());
    let ghost mut before_review2: Seq<Call> = Seq::empty();
    let ghost mut reviewed2_log: Seq<Call> = Seq::empty();
    let ghost mut reviewed2_g: Result<bool, Error> = Ok(false);
    let ghost mut fresh: Seq<Issue> = Seq::empty();
    if findings {
        let ghost pre = ctx.log();
        let children = ctx.get_children(issue_id);
        proof {
            second_children = children;
            assert(call_ok(ctx.log(), start, pre.len() as int, cfg));
            lemma_laws_push(pre, Call::GetChildren(issue_id, children), start, cfg);
        }
        let all = match children {
            Err(e) => {
                proof {
                    let log = ctx.log();
                    let m = reviewed_log.len() as int;
                    assert(second_round(issue_id, child_base@, cfg, branch, ids_of(initial@), log, m, Err(e)));
                    lemma_feature_review_step(issue_id, cfg, before_review, reviewed_log, log, reviewed_g);
                    assert(feature_reviewed(issue_id, child_base@, cfg, branch, ids_of(initial@), log, ordered_log.len() as int, Err(e)));
                    lemma_ordered_step(initial@, child_base@, cfg, ordered_log, log, work_start + 1, done);
                    assert(log[work_start] == before[work_start]);
                    assert(feature_worked(issue_id, child_base@, cfg, branch, log, work_start, Err(e)));
                    assert(feature_ran(issue_id, base_branch@, cfg, log, start, Err(e)));
                }
                return Err(e);
            },
            Ok(c) => c,
        };
        let ghost all_g = all@;
        let new_children = fresh_issues(all, &initial_ids);
        proof {
            fresh = new_children@;
            assert(fresh == all_g.filter(unseen(ids_of(initial@))));
        }
        let ghost before = ctx.log();
        let done2 = execute_ordered(new_children.as_slice(), ctx, child_base.as_str());
        proof {
            second_ordered_log = ctx.log();
            second_done = done2;
            lemma_laws_append(before, ctx.log(), start, cfg);
        }
        match done2 {
            Err(e) => {
                proof {
                    let log = ctx.log();
                    let m = reviewed_log.len() as int;
                    lemma_ordered_step(fresh, child_base@, cfg, second_ordered_log, log, m + 1, done2);
                    assert(second_round(issue_id, child_base@, cfg, branch, ids_of(initial@), log, m, Err(e)));
                    lemma_feature_review_step(issue_id, cfg, before_review, reviewed_log, log, reviewed_g);
                    assert(feature_reviewed(issue_id, child_base@, cfg, branch, ids_of(initial@), log, ordered_log.len() as int, Err(e)));
                    lemma_ordered_step(initial@, child_base@, cfg, ordered_log, log, work_start + 1, done);
                    assert(log[work_start] == before[work_start]);
                    assert(feature_worked(issue_id, child_base@, cfg, branch, log, work_start, Err(e)));
                    assert(feature_ran(issue_id, base_branch@, cfg, log, start, Err(e)));
                }
                return Err(e);
            },
            Ok(()) => {},
        }
        let ghost before_review_b = ctx.log();
        let ghost spent_review = ctx.spent();
        proof {
            before_review2 = before_review_b;
            ctx.lemma_spent_counts();
        }
        let reviewed = feature_review(issue_id, ctx);
        proof {
            reviewed2_g = reviewed;
            reviewed2_log = ctx.log();
            lemma_diff_action_laws(issue_id, "feature_review"@, cfg, spent_review, ctx.log(), before_review_b.len() as int, reviewed, feature_findings());
            lemma_laws_append(before_review_b, ctx.log(), start, cfg);
        }
        let still = match reviewed {
            Err(e) => {
                proof {
                    let log = ctx.log();
                    let m = reviewed_log.len() as int;
                    lemma_feature_review_step(issue_id, cfg, before_review2, reviewed2_log, log, reviewed2_g);
                    assert(rereviewed(issue_id, cfg, branch, log, second_ordered_log.len() as int, Err(e)));
                    lemma_ordered_step(fresh, child_base@, cfg, second_ordered_log, log, m + 1, second_done);
                    assert(second_round(issue_id, child_base@, cfg, branch, ids_of(initial@), log, m, Err(e)));
                    lemma_feature_review_step(issue_id, cfg, before_review, reviewed_log, log, reviewed_g);
                    assert(feature_reviewed(issue_id, child_base@, cfg, branch, ids_of(initial@), log, ordered_log.len() as int, Err(e)));
                    lemma_ordered_step(initial@, child_base@, cfg, ordered_log, log, work_start + 1, done);
                    assert(log[work_start] == before[work_start]);
                    assert(feature_worked(issue_id, child_base@, cfg, branch, log, work_start, Err(e)));
                    assert(feature_ran(issue_id, base_branch@, cfg, log, start, Err(e)));
                }
                return Err(e);
            },
            Ok(f) => f,
        };
        proof {
            review_at = before_review_b.len() + 3int;
            if !still {
                assert(clean_review_at(ctx.log(), review_at, issue_id));
            }
        }
        if still {
            let ghost pre = ctx.log();
            let skipped = ctx.skip_issue(issue_id);
            proof {
                let i = pre.len() as int;
                assert(crate::laws::reported_in_scope_findings(pre[i - 1]));
                assert(call_ok(ctx.log(), start, i, cfg));
                lemma_laws_push(pre, Call::Skip(issue_id, skipped), start, cfg);
                let log = ctx.log();
                let m = reviewed_log.len() as int;
                lemma_feature_review_step(issue_id, cfg, before_review2, reviewed2_log, log, reviewed2_g);
                assert(rereviewed(issue_id, cfg, branch, log, second_ordered_log.len() as int, skipped));
                lemma_ordered_step(fresh, child_base@, cfg, second_ordered_log, log, m + 1, second_done);
                assert(second_round(issue_id, child_base@, cfg, branch, ids_of(initial@), log, m, skipped));
                lemma_feature_review_step(issue_id, cfg, before_review, reviewed_log, log, reviewed_g);
                assert(feature_reviewed(issue_id, child_base@, cfg, branch, ids_of(initial@), log, ordered_log.len() as int, skipped));
                lemma_ordered_step(initial@, child_base@, cfg, ordered_log, log, work_start + 1, done);
                assert(log[work_start] == before[work_start]);
                assert(feature_worked(issue_id, child_base@, cfg, branch, log, work_start, skipped));
                assert(feature_ran(issue_id, base_branch@, cfg, log, start, skipped));
            }
            match skipped {
                Err(e) => return Err(e),
                Ok(u) => {
                    proof {
                        assert(skipped == Ok::<(), Error>(u));
                        assert(ctx.log().last() == Call::Skip(issue_id, Ok(())));
                    }
                    return Ok(());
                },
            }
        }
    }
    let ghost before_instructions = ctx.log();
    let ghost spent_instructions = ctx.spent();
    proof {
        ctx.lemma_spent_counts();
    }
    let instructed = generate_test_instructions(issue_id, ctx);
    let ghost done_log = ctx.log();
    proof {
        assert(review_at == before_instructions.len() - 1);
        assert(start <= review_at);
        lemma_instructions_laws(issue_id, cfg, spent_instructions, before_instructions, ctx.log(), start, review_at, instructed, no_value());
    }
    let r: Result<(), Error> = match instructed {
        Err(e) => Err(e),
        Ok(()) => {
            proof {
                assert(instructions_given(ctx.log(), before_instructions.len() as int, issue_id));
            }
            if own_branch {
                let ghost pre = ctx.log();
                let opened = create_pr(issue_id, child_base.as_str(), ctx);
                proof {
                    assert(ctx.log()[start] == pre[start]);
                    crate::laws::lemma_pr_ok(ctx.log(), start, pre.len() as int, start, child_base@);
                    assert(call_ok(ctx.log(), start, pre.len() as int, cfg));
                    lemma_laws_push(pre, Call::CreatePr(pr_title(issue_id), pr_body(issue_id), child_base@, opened), start, cfg);
                    let k = before_instructions.len() as int;
                    assert(ctx.log()[k] == pre[k]);
                    assert(ctx.log()[k + 2] == pre[k + 2]);
                    assert(ctx.log()[k + 3] == pre[k + 3]);
                    assert(instructions_given(ctx.log(), k, issue_id));
                }
                match opened {
                    Err(e) => Err(e),
                    Ok(_) => Ok(()),
                }
            } else {
                Ok(())
            }
        },
    };
    proof {
        let log = ctx.log();
        lemma_instructed(issue_id, cfg, branch, before_instructions, done_log, log, instructed, r);
        if findings {
            let m = reviewed_log.len() as int;
            lemma_feature_review_step(issue_id, cfg, before_review2, reviewed2_log, log, reviewed2_g);
            assert(rereviewed(issue_id, cfg, branch, log, second_ordered_log.len() as int, r));
            lemma_ordered_step(fresh, child_base@, cfg, second_ordered_log, log, m + 1, second_done);
            assert(second_round(issue_id, child_base@, cfg, branch, ids_of(initial@), log, m, r));
        }
        lemma_feature_review_step(issue_id, cfg, before_review, reviewed_log, log, reviewed_g);
        assert(feature_reviewed(issue_id, child_base@, cfg, branch, ids_of(initial@), log, ordered_log.len() as int, r));
        lemma_ordered_step(initial@, child_base@, cfg, ordered_log, log, work_start + 1, done);
        assert(log[work_start] == before[work_start]);
        assert(feature_worked(issue_id, child_base@, cfg, branch, log, work_start, r));
        assert(feature_ran(issue_id, base_branch@, cfg, log, start, r));
    }
    r
}

} // verus!
