//! What every run keeps to, stated over the log of adapter calls that a
//! [`Context`](crate::context::Context) records.
use vstd::prelude::*;
use crate::actions::agent::{
    strippable, diff_action_ran, findings_tag, implement_ran, in_scope_findings_tag, plan_order_ran,
};
use crate::context::{agent_runs, Call};
use crate::text::contains;
use crate::traits::{
    hitl_label, AgentOutput, DirtyBehavior, Error, IssueView, MergeStrategy, RunConfig,
};

verus! {

/// The call at index `i` claims an issue only right after fetching that issue,
/// within the range that starts at `from`, and the issue is not labeled `hitl`.
pub open spec fn claim_ok(log: Seq<Call>, from: int, i: int) -> bool {
    log[i] is Claim ==> {
        &&& from < i
        &&& log[i - 1] matches Call::GetIssue(j, Ok(issue)) && log[i] matches Call::Claim(k, _)
            && j == k && !issue@.has_label(hitl_label())
    }
}

/// Under the `direct` strategy no call creates a branch or opens a pull request.
pub open spec fn strategy_ok(log: Seq<Call>, i: int, cfg: RunConfig) -> bool {
    cfg.merge_strategy == MergeStrategy::Direct ==> !(log[i] is CreateBranch) && !(log[i] is CreatePr)
}

/// `c` created the branch `branch`.
pub open spec fn created_branch(c: Call, branch: Seq<char>) -> bool {
    c matches Call::CreateBranch(b, _, Ok(_)) && b == branch
}

/// `c` is a successful agent invocation whose reply reports in-scope findings.
pub open spec fn reported_in_scope_findings(c: Call) -> bool {
    c matches Call::RunAgent(_, Ok(out)) && contains(out.stdout@, in_scope_findings_tag())
}

/// A pull request is opened only from a branch that was created successfully
/// earlier in the range that starts at `from`.
pub open spec fn pr_ok(log: Seq<Call>, from: int, i: int) -> bool {
    log[i] matches Call::CreatePr(_, _, branch, _) ==> exists|j: int|
        from <= j < i && #[trigger] created_branch(log[j], branch)
}

/// An issue is skipped only when the agent budget is spent, or right after a
/// feature review that reported in-scope findings.
pub open spec fn skip_ok(log: Seq<Call>, from: int, i: int, cfg: RunConfig) -> bool {
    log[i] is Skip ==> {
        &&& from < i
        &&& agent_runs(log.take(i)) >= cfg.max_iterations || reported_in_scope_findings(log[i - 1])
    }
}

/// Changes are staged or committed by the library only under a `commit` policy.
pub open spec fn commit_ok(log: Seq<Call>, i: int, cfg: RunConfig) -> bool {
    (log[i] is StageAll || log[i] is Commit) ==> (cfg.on_dirty_no_commits == DirtyBehavior::Commit
        || cfg.on_dirty_after_commit == DirtyBehavior::Commit)
}

/// The agent's reply at index `j` of `log` ends a review of issue `id`, by
/// the ticket review or the feature review, that reported no findings.
pub open spec fn clean_review_at(log: Seq<Call>, j: int, id: u64) -> bool {
    3 <= j < log.len() && match (log[j - 3], log[j - 1], log[j]) {
        (Call::GetIssue(i, _), Call::LoadPrompt(n, _), Call::RunAgent(_, Ok(out))) => i == id && (
        (n == "review"@ && !contains(out.stdout@, findings_tag())) || (n == "feature_review"@
            && !contains(out.stdout@, in_scope_findings_tag()))),
        _ => false,
    }
}

/// No call strictly between indices `j` and `i` of `log` runs the agent.
pub open spec fn no_agent_between(log: Seq<Call>, j: int, i: int) -> bool {
    forall|k: int| j < k < i ==> !(#[trigger] log[k] is RunAgent)
}

/// The issue fetched two calls before index `i` had a clean review at or
/// after `from`, and the agent ran on nothing else since.
pub open spec fn reviewed_before(log: Seq<Call>, from: int, i: int) -> bool {
    2 <= i && match log[i - 2] {
        Call::GetIssue(id, _) => exists|j: int|
            from <= j < i && #[trigger] clean_review_at(log, j, id) && no_agent_between(log, j, i),
        _ => false,
    }
}

/// Test instructions for an issue are asked for only after a review of that
/// issue reported no findings, with no other agent run in between.
pub open spec fn instructions_ok(log: Seq<Call>, from: int, i: int) -> bool {
    match log[i] {
        Call::LoadPrompt(n, _) => n == "test_instructions"@ ==> reviewed_before(log, from, i),
        _ => true,
    }
}

/// The call at index `i` keeps every rule above.
pub open spec fn call_ok(log: Seq<Call>, from: int, i: int, cfg: RunConfig) -> bool {
    &&& claim_ok(log, from, i)
    &&& strategy_ok(log, i, cfg)
    &&& pr_ok(log, from, i)
    &&& skip_ok(log, from, i, cfg)
    &&& commit_ok(log, i, cfg)
    &&& instructions_ok(log, from, i)
}

/// Every call of `log` from index `from` up to `to` keeps the rules of a run.
pub open spec fn run_laws(log: Seq<Call>, from: int, to: int, cfg: RunConfig) -> bool {
    &&& 0 <= from <= to <= log.len()
    &&& forall|i: int| from <= i < to ==> #[trigger] call_ok(log, from, i, cfg)
}

/// The rules hold of an empty range.
pub proof fn lemma_laws_empty(log: Seq<Call>, at: int, cfg: RunConfig)
    requires
        0 <= at <= log.len(),
    ensures
        run_laws(log, at, at, cfg),
{
}

/// What held of calls stays true as more calls are logged after them.
pub proof fn lemma_laws_extend(log1: Seq<Call>, log2: Seq<Call>, from: int, to: int, cfg: RunConfig)
    requires
        run_laws(log1, from, to, cfg),
        log1.len() <= log2.len(),
        forall|i: int| 0 <= i < log1.len() ==> #[trigger] log2[i] == log1[i],
    ensures
        run_laws(log2, from, to, cfg),
{
    assert forall|i: int| from <= i < to implies #[trigger] call_ok(log2, from, i, cfg) by {
        assert(call_ok(log1, from, i, cfg));
        assert(log2[i] == log1[i]);
        if i > 0 {
            assert(log2[i - 1] == log1[i - 1]);
        }
        assert(log2.take(i) =~= log1.take(i));
        if let Call::CreatePr(_, _, branch, _) = log1[i] {
            let j = choose|j: int| from <= j < i && #[trigger] created_branch(log1[j], branch);
            assert(log2[j] == log1[j]);
        }
        if let Call::LoadPrompt(n, _) = log1[i] {
            if n == "test_instructions"@ {
                assert(log2[i - 2] == log1[i - 2]);
                if let Call::GetIssue(id, _) = log1[i - 2] {
                    let j = choose|j: int|
                        from <= j < i && #[trigger] clean_review_at(log1, j, id) && no_agent_between(
                            log1,
                            j,
                            i,
                        );
                    assert(log2[j - 3] == log1[j - 3]);
                    assert(log2[j - 1] == log1[j - 1]);
                    assert(log2[j] == log1[j]);
                    assert(clean_review_at(log2, j, id));
                    assert forall|k: int| j < k < i implies !(#[trigger] log2[k] is RunAgent) by {
                        assert(log2[k] == log1[k]);
                    }
                }
            }
        }
    }
}

/// Two adjacent ranges that keep the rules make one range that does.
pub proof fn lemma_laws_join(log: Seq<Call>, a: int, b: int, c: int, cfg: RunConfig)
    requires
        run_laws(log, a, b, cfg),
        run_laws(log, b, c, cfg),
    ensures
        run_laws(log, a, c, cfg),
{
    assert forall|i: int| a <= i < c implies #[trigger] call_ok(log, a, i, cfg) by {
        if i < b {
            assert(call_ok(log, a, i, cfg));
        } else {
            assert(call_ok(log, b, i, cfg));
            if let Call::CreatePr(_, _, branch, _) = log[i] {
                let j = choose|j: int| b <= j < i && #[trigger] created_branch(log[j], branch);
                assert(a <= j < i);
            }
            if let Call::LoadPrompt(n, _) = log[i] {
                if n == "test_instructions"@ {
                    if let Call::GetIssue(id, _) = log[i - 2] {
                        let j = choose|j: int|
                            b <= j < i && #[trigger] clean_review_at(log, j, id) && no_agent_between(
                                log,
                                j,
                                i,
                            );
                        assert(a <= j < i);
                    }
                }
            }
        }
    }
}

/// The rules of an earlier range, extended by a later range of calls that keeps them.
pub proof fn lemma_laws_append(
    log1: Seq<Call>,
    log2: Seq<Call>,
    from: int,
    cfg: RunConfig,
)
    requires
        run_laws(log1, from, log1.len() as int, cfg),
        log1.len() <= log2.len(),
        forall|i: int| 0 <= i < log1.len() ==> #[trigger] log2[i] == log1[i],
        run_laws(log2, log1.len() as int, log2.len() as int, cfg),
    ensures
        run_laws(log2, from, log2.len() as int, cfg),
{
    lemma_laws_extend(log1, log2, from, log1.len() as int, cfg);
    lemma_laws_join(log2, from, log1.len() as int, log2.len() as int, cfg);
}

/// A pull request from a branch created at index `j` keeps the pull request rule.
pub proof fn lemma_pr_ok(log: Seq<Call>, from: int, i: int, j: int, branch: Seq<char>)
    requires
        0 <= from <= j < i < log.len(),
        log[i] matches Call::CreatePr(_, _, b, _) && b == branch,
        created_branch(log[j], branch),
    ensures
        pr_ok(log, from, i),
{
}

/// The rules of a range, extended by one more call that keeps them.
pub proof fn lemma_laws_push(log1: Seq<Call>, c: Call, from: int, cfg: RunConfig)
    requires
        run_laws(log1, from, log1.len() as int, cfg),
        call_ok(log1.push(c), from, log1.len() as int, cfg),
    ensures
        run_laws(log1.push(c), from, (log1.len() + 1) as int, cfg),
{
    let log2 = log1.push(c);
    lemma_laws_extend(log1, log2, from, log1.len() as int, cfg);
    assert forall|i: int| from <= i < log2.len() implies #[trigger] call_ok(log2, from, i, cfg) by {
        if i < log1.len() {
            assert(run_laws(log2, from, log1.len() as int, cfg));
        }
    }
}

/// One run of the implementation action keeps the rules: its claim follows
/// the fetch of an issue without the `hitl` label, and it touches no branch,
/// pull request, skip or commit.
pub proof fn lemma_implement_laws(
    id: u64,
    cfg: RunConfig,
    spent: nat,
    log: Seq<Call>,
    s: int,
    r: Result<(), Error>,
)
    requires
        implement_ran(id, cfg, spent, log, s, r),
    ensures
        run_laws(log, s, log.len() as int, cfg),
{
    reveal_strlit("implement");
    reveal_strlit("test_instructions");
    assert("implement"@ != "test_instructions"@) by {
        assert("implement"@.len() != "test_instructions"@.len());
    }
    assert forall|i: int| s <= i < log.len() implies #[trigger] call_ok(log, s, i, cfg) by {
        if i == s {
        } else if i == s + 1 {
        } else if i == s + 2 {
        } else if i == s + 3 {
        } else if i == s + 4 {
        } else if i == s + 5 {
        } else {
        }
    }
}

/// One run of an action that shows the agent a diff keeps the rules.
pub proof fn lemma_diff_action_laws<T>(
    id: u64,
    name: Seq<char>,
    cfg: RunConfig,
    spent: nat,
    log: Seq<Call>,
    s: int,
    r: Result<T, Error>,
    on_reply: spec_fn(AgentOutput) -> T,
)
    requires
        diff_action_ran(id, name, cfg, spent, log, s, r, on_reply),
        name == "review"@ || name == "feature_review"@,
    ensures
        run_laws(log, s, log.len() as int, cfg),
{
    reveal_strlit("review");
    reveal_strlit("feature_review");
    reveal_strlit("test_instructions");
    assert(name != "test_instructions"@) by {
        assert(name.len() != "test_instructions"@.len());
    }
    assert forall|i: int| s <= i < log.len() implies #[trigger] call_ok(log, s, i, cfg) by {
        if i == s {
        } else if i == s + 1 {
        } else if i == s + 2 {
        } else {
        }
    }
}

/// One run of the planning action keeps the rules.
pub proof fn lemma_plan_order_laws(
    issues: Seq<IssueView>,
    cfg: RunConfig,
    spent: nat,
    log: Seq<Call>,
    s: int,
    r: Result<Vec<u64>, Error>,
)
    requires
        plan_order_ran(issues, cfg, spent, log, s, r),
    ensures
        run_laws(log, s, log.len() as int, cfg),
{
    reveal_strlit("plan_order");
    reveal_strlit("test_instructions");
    assert("plan_order"@ != "test_instructions"@) by {
        assert("plan_order"@.len() != "test_instructions"@.len());
    }
    assert forall|i: int| s <= i < log.len() implies #[trigger] call_ok(log, s, i, cfg) by {
        if i == s {
        } else if i == s + 1 {
        } else {
        }
    }
}

/// Asking for test instructions for issue `id`, right after the calls of
/// `before`, keeps the rules of a run that started at `from`, when a review
/// of `id` at index `j` (at or after `from`) reported no findings and the
/// agent ran on nothing since.
pub proof fn lemma_instructions_laws<T>(
    id: u64,
    cfg: RunConfig,
    spent: nat,
    before: Seq<Call>,
    log: Seq<Call>,
    from: int,
    j: int,
    r: Result<T, Error>,
    on_reply: spec_fn(AgentOutput) -> T,
)
    requires
        run_laws(before, from, before.len() as int, cfg),
        before.len() <= log.len(),
        forall|i: int| 0 <= i < before.len() ==> #[trigger] log[i] == before[i],
        diff_action_ran(id, "test_instructions"@, cfg, spent, log, before.len() as int, r, on_reply),
        from <= j < before.len(),
        clean_review_at(before, j, id),
        no_agent_between(before, j, before.len() as int),
    ensures
        run_laws(log, from, log.len() as int, cfg),
{
    let s = before.len() as int;
    lemma_laws_extend(before, log, from, s, cfg);
    assert(log[j - 3] == before[j - 3]);
    assert(log[j - 1] == before[j - 1]);
    assert(log[j] == before[j]);
    assert(clean_review_at(log, j, id));
    assert forall|i: int| from <= i < log.len() implies #[trigger] call_ok(log, from, i, cfg) by {
        if i < s {
            assert(run_laws(log, from, s, cfg));
        } else if i == s + 2 {
            assert forall|k: int| j < k < i implies !(#[trigger] log[k] is RunAgent) by {
                if k < s {
                    assert(log[k] == before[k]);
                }
            }
            assert(reviewed_before(log, from, i));
        }
    }
}

/// The error the adapter reported for call `c`, if it reported one.
pub open spec fn call_error(c: Call) -> Option<Error> {
    match c {
        Call::GetIssue(_, Err(e)) => Some(e),
        Call::GetChildren(_, Err(e)) => Some(e),
        Call::IssuesByLabel(_, Err(e)) => Some(e),
        Call::Claim(_, Err(e)) => Some(e),
        Call::Complete(_, Err(e)) => Some(e),
        Call::Skip(_, Err(e)) => Some(e),
        Call::KindOf(_, Err(e)) => Some(e),
        Call::CreateBranch(_, _, Err(e)) => Some(e),
        Call::CurrentBranch(Err(e)) => Some(e),
        Call::Diff(_, Err(e)) => Some(e),
        Call::HasUncommitted(Err(e)) => Some(e),
        Call::HasCommitsSince(_, Err(e)) => Some(e),
        Call::StageAll(Err(e)) => Some(e),
        Call::Commit(_, Err(e)) => Some(e),
        Call::CreatePr(_, _, _, Err(e)) => Some(e),
        Call::LoadPrompt(_, Err(e)) => Some(e),
        Call::RunAgent(_, Err(e)) => Some(e),
        _ => None,
    }
}

/// The call `c` accounts for the error `e`: the adapter reported `e`, or
/// the library refused to go on because of what `c` gave back (an agent run
/// the budget refused, a template that cannot be stripped, a plan that is
/// no JSON, a branch other than the one expected, a tree left without
/// commits or with changes).
pub open spec fn explains(c: Call, e: Error) -> bool {
    ||| call_error(c) == Some(e)
    ||| c is AgentRefused && e is BudgetExhausted
    ||| (c matches Call::LoadPrompt(n, Ok(raw)) && !strippable(raw@) && (e matches Error::MalformedPrompt(m) && m@ == n))
    ||| (c matches Call::DecodePlan(_, Err(m)) && (e matches Error::InvalidJson(m2) && m2@ == m@))
    ||| (c matches Call::CurrentBranch(Ok(actual)) && (e matches Error::BranchMismatch { expected: x, actual: a }
        && a@ == actual@ && x@ != actual@))
    ||| (c matches Call::HasCommitsSince(_, Ok(false)) && e is NoCommits)
    ||| (c matches Call::HasUncommitted(Ok(true)) && e is UncommittedChanges)
}

/// The calls from `from` on failed with `e`: the last of them accounts for it.
pub open spec fn ended_by(log: Seq<Call>, from: int, e: Error) -> bool {
    0 <= from < log.len() && explains(log.last(), e)
}

} // verus!
