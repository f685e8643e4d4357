//! The agent actions: the prompts they send and what they read in the replies.
use vstd::prelude::*;
use crate::text::{
    lemma_trim_start, occurs_at,
    chars_of, decimal, extend_range, find, find_chars_from, lemma_find, push_str, replace_all,
    replace_str, string_of, trim, trim_start, trim_start_chars, trim_str, u64_to_string, contains,
    contains_str,
};
use crate::context::{Call, Context};
use crate::laws::ended_by;
use crate::traits::{
    has_label, AgentOutput, AgentRunner, Error, Event, EventSink, Issue, IssueTracker, IssueView,
    JsonDecoder, PromptLoader, RemoteClient, RunConfig, SourceControl,
};


verus! {

broadcast use vstd::string::group_string_axioms;

// ---------------------------------------------------------------------------
// Prompt templates

/// The tag that opens a section of a template meant for its readers only.
pub open spec fn strip_open() -> Seq<char> {
    "<strip-before-prompting>"@
}

/// The tag that closes such a section.
pub open spec fn strip_close() -> Seq<char> {
    "</strip-before-prompting>"@
}

/// Removing sections comes to an end on `s`: whenever both tags are present,
/// the first closing tag does not come before the first opening tag.
/// (Where it does, stripping would go on forever.)
pub open spec fn strippable(s: Seq<char>) -> bool
    decreases s.len(),
{
    proof {
        reveal_strlit("</strip-before-prompting>");
    }
    match (find(s, strip_open()), find(s, strip_close())) {
        (Some(a), Some(b)) => a <= b && b + strip_close().len() <= s.len() && strippable(
            s.subrange(0, a as int) + s.subrange((b + strip_close().len()) as int, s.len() as int),
        ),
        _ => true,
    }
}

/// `s` after repeatedly cutting from the first opening tag through the end
/// of the first closing tag, while both are present.
pub open spec fn without_sections(s: Seq<char>) -> Seq<char>
    decreases s.len(),
{
    proof {
        reveal_strlit("</strip-before-prompting>");
    }
    match (find(s, strip_open()), find(s, strip_close())) {
        (Some(a), Some(b)) => if a <= b && b + strip_close().len() <= s.len() {
            without_sections(
                s.subrange(0, a as int) + s.subrange((b + strip_close().len()) as int, s.len() as int),
            )
        } else {
            s
        },
        _ => s,
    }
}

/// What stripping removes from a template leaves no section behind: what
/// remains lacks the opening tag or the closing tag.
pub proof fn lemma_without_sections_has_none(s: Seq<char>)
    requires
        strippable(s),
    ensures
        !contains(without_sections(s), strip_open()) || !contains(without_sections(s), strip_close()),
    decreases s.len(),
{
    reveal_strlit("</strip-before-prompting>");
    match (find(s, strip_open()), find(s, strip_close())) {
        (Some(a), Some(b)) => {
            let rest = s.subrange(0, a as int) + s.subrange((b + strip_close().len()) as int, s.len() as int);
            lemma_without_sections_has_none(rest);
        },
        _ => {
            lemma_find(s, strip_open());
            lemma_find(s, strip_close());
        },
    }
}

/// Stripping leaves no documentation section behind: the stripped template
/// lacks the opening tag or the closing tag.
pub proof fn lemma_stripped_has_no_section(s: Seq<char>)
    requires
        strippable(s),
    ensures
        !contains(trim_start(without_sections(s)), strip_open()) || !contains(
            trim_start(without_sections(s)),
            strip_close(),
        ),
{
    let w = without_sections(s);
    let t = trim_start(w);
    lemma_without_sections_has_none(s);
    lemma_trim_start(w);
    let d = w.len() - t.len();
    assert forall|p: Seq<char>, i: int| occurs_at(t, p, i) implies occurs_at(w, p, i + d) by {
        assert(w.subrange(i + d, i + d + p.len()) =~= t.subrange(i, i + p.len()));
    }
    if contains(t, strip_open()) && contains(t, strip_close()) {
        let i = choose|i: int| occurs_at(t, strip_open(), i);
        let j = choose|j: int| occurs_at(t, strip_close(), j);
        assert(occurs_at(w, strip_open(), i + d));
        assert(occurs_at(w, strip_close(), j + d));
    }
}

/// The template `s` with its documentation sections stripped, or `None`
/// where a closing tag comes first and stripping would not end.
pub fn try_strip_prompt_docs(s: &str) -> (r: Option<String>)
    ensures
        match r {
            Some(t) => strippable(s@) && t@ == trim_start(without_sections(s@)),
            None => !strippable(s@),
        },
{
    let open = chars_of("<strip-before-prompting>");
    let close = chars_of("</strip-before-prompting>");
    proof {
        reveal_strlit("<strip-before-prompting>");
        reveal_strlit("</strip-before-prompting>");
    }
    let mut v = chars_of(s);
    loop
        invariant
            open@ == strip_open(),
            close@ == strip_close(),
            close@.len() == 25,
            strippable(s@) == strippable(v@),
            without_sections(s@) == without_sections(v@),
        decreases v@.len(),
    {
        let a = find_chars_from(&v, &open, 0);
        let b = find_chars_from(&v, &close, 0);
        match (a, b) {
            (Some(a), Some(b)) => {
                proof {
                    lemma_find(v@, strip_open());
                    lemma_find(v@, strip_close());
                }
                assert(b + 25 <= v.len());
                if a > b {
                    return None;
                }
                let mut w: Vec<char> = Vec::new();
                extend_range(&mut w, &v, 0, a);
                extend_range(&mut w, &v, b + 25, v.len());
                v = w;
            },
            _ => {
                let t = trim_start_chars(&v);
                return Some(string_of(&t));
            },
        }
    }
}

/// Strips the documentation sections from a prompt template and the
/// whitespace that leads the rest.
pub fn strip_prompt_docs(s: &str) -> (r: String)
    requires
        strippable(s@),
    ensures
        r@ == trim_start(without_sections(s@)),
{
    match try_strip_prompt_docs(s) {
        Some(t) => t,
        None => String::new(),
    }
}

// ---------------------------------------------------------------------------
// Rendering

/// The placeholders of the templates.
pub open spec fn ph_issue_id() -> Seq<char> {
    "{{issue_id}}"@
}

pub open spec fn ph_issue_title() -> Seq<char> {
    "{{issue_title}}"@
}

pub open spec fn ph_issue_body() -> Seq<char> {
    "{{issue_body}}"@
}

pub open spec fn ph_repo_context() -> Seq<char> {
    "{{repo_context}}"@
}

pub open spec fn ph_diff() -> Seq<char> {
    "{{diff}}"@
}

pub open spec fn ph_issues_list() -> Seq<char> {
    "{{issues_list}}"@
}

/// `template` with the issue's number, title and body in their placeholders,
/// in that order.
pub open spec fn with_issue(template: Seq<char>, issue: IssueView) -> Seq<char> {
    replace_all(
        replace_all(
            replace_all(template, ph_issue_id(), decimal(issue.id as nat)),
            ph_issue_title(),
            issue.title,
        ),
        ph_issue_body(),
        issue.body,
    )
}

/// The implementation prompt: the issue, then the repository context.
pub open spec fn implement_prompt(template: Seq<char>, issue: IssueView, repo_context: Seq<char>) -> Seq<char> {
    replace_all(with_issue(template, issue), ph_repo_context(), repo_context)
}

/// The prompts that show the agent a diff: the issue, then the diff.
pub open spec fn diff_prompt(template: Seq<char>, issue: IssueView, diff: Seq<char>) -> Seq<char> {
    replace_all(with_issue(template, issue), ph_diff(), diff)
}

/// How one issue is listed in the planning prompt.
pub open spec fn issue_entry(issue: IssueView) -> Seq<char> {
    "### Issue #"@ + decimal(issue.id as nat) + ": "@ + issue.title + "\n"@ + issue.body
}

/// The entries of `issues`, separated by blank lines.
pub open spec fn issues_list(issues: Seq<IssueView>) -> Seq<char>
    decreases issues.len(),
{
    if issues.len() == 0 {
        Seq::empty()
    } else if issues.len() == 1 {
        issue_entry(issues[0])
    } else {
        issues_list(issues.drop_last()) + "\n\n"@ + issue_entry(issues.last())
    }
}

/// The issues as plain values.
pub open spec fn issue_views(issues: Seq<Issue>) -> Seq<IssueView> {
    issues.map_values(|i: Issue| i@)
}

/// The planning prompt for `issues`.
pub open spec fn plan_order_prompt(template: Seq<char>, issues: Seq<IssueView>) -> Seq<char> {
    replace_all(template, ph_issues_list(), issues_list(issues))
}

fn render_issue(template: &str, issue: &Issue) -> (r: String)
    ensures
        r@ == with_issue(template@, issue@),
{
    proof {
        reveal_strlit("{{issue_id}}");
        reveal_strlit("{{issue_title}}");
        reveal_strlit("{{issue_body}}");
    }
    let id = u64_to_string(issue.id);
    let a = replace_str(template, "{{issue_id}}", id.as_str());
    let b = replace_str(a.as_str(), "{{issue_title}}", issue.title.as_str());
    replace_str(b.as_str(), "{{issue_body}}", issue.body.as_str())
}

/// The implementation prompt for `issue` from its template.
pub fn build_implement_prompt(template: &str, issue: &Issue, repo_context: &str) -> (r: String)
    ensures
        r@ == implement_prompt(template@, issue@, repo_context@),
{
    proof {
        reveal_strlit("{{repo_context}}");
    }
    let a = render_issue(template, issue);
    replace_str(a.as_str(), "{{repo_context}}", repo_context)
}

fn build_diff_prompt(template: &str, issue: &Issue, diff: &str) -> (r: String)
    ensures
        r@ == diff_prompt(template@, issue@, diff@),
{
    proof {
        reveal_strlit("{{diff}}");
    }
    let a = render_issue(template, issue);
    replace_str(a.as_str(), "{{diff}}", diff)
}

/// The review prompt for `issue` and the diff of its work.
pub fn build_review_prompt(template: &str, issue: &Issue, diff: &str) -> (r: String)
    ensures
        r@ == diff_prompt(template@, issue@, diff@),
{
    build_diff_prompt(template, issue, diff)
}

/// The feature review prompt for `issue` and the diff of its work.
pub fn build_feature_review_prompt(template: &str, issue: &Issue, diff: &str) -> (r: String)
    ensures
        r@ == diff_prompt(template@, issue@, diff@),
{
    build_diff_prompt(template, issue, diff)
}

/// The prompt that asks for test instructions for `issue`.
pub fn build_test_instructions_prompt(template: &str, issue: &Issue, diff: &str) -> (r: String)
    ensures
        r@ == diff_prompt(template@, issue@, diff@),
{
    build_diff_prompt(template, issue, diff)
}

/// The planning prompt that lists `issues`.
pub fn build_plan_order_prompt(template: &str, issues: &[Issue]) -> (r: String)
    ensures
        r@ == plan_order_prompt(template@, issue_views(issues@)),
{
    proof {
        reveal_strlit("{{issues_list}}");
    }
    let ghost views = issue_views(issues@);
    let mut list = String::new();
    let mut i: usize = 0;
    while i < issues.len()
        invariant
            i <= issues@.len(),
            views == issue_views(issues@),
            list@ == issues_list(views.take(i as int)),
        decreases issues.len() - i,
    {
        let issue = &issues[i];
        if i > 0 {
            push_str(&mut list, "\n\n");
        }
        push_str(&mut list, "### Issue #");
        let id = u64_to_string(issue.id);
        push_str(&mut list, id.as_str());
        push_str(&mut list, ": ");
        push_str(&mut list, issue.title.as_str());
        push_str(&mut list, "\n");
        push_str(&mut list, issue.body.as_str());
        assert(views.take(i + 1).drop_last() =~= views.take(i as int));
        assert(views[i as int] == issue@);
        i = i + 1;
    }
    assert(views.take(issues@.len() as int) =~= views);
    replace_str(template, "{{issues_list}}", list.as_str())
}

// ---------------------------------------------------------------------------
// Loading templates

/// What loading the template `name` gives when the loader answered `loaded`:
/// the loader's error, the stripped template, or a malformed-template error.
pub open spec fn template_result(
    name: Seq<char>,
    loaded: Result<String, Error>,
    r: Result<String, Error>,
) -> bool {
    match loaded {
        Err(e) => r == Err::<String, Error>(e),
        Ok(raw) => if strippable(raw@) {
            r matches Ok(t) && t@ == trim_start(without_sections(raw@))
        } else {
            r matches Err(Error::MalformedPrompt(n)) && n@ == name
        },
    }
}

/// The template that the loader's answer `loaded` yields, if it yields one.
pub open spec fn usable_template(loaded: Result<String, Error>) -> Option<Seq<char>> {
    match loaded {
        Ok(raw) => if strippable(raw@) {
            Some(trim_start(without_sections(raw@)))
        } else {
            None
        },
        Err(_) => None,
    }
}

/// An action that stops at a failed template load fails as the load did.
pub open spec fn template_failure<T>(
    name: Seq<char>,
    loaded: Result<String, Error>,
    r: Result<T, Error>,
) -> bool {
    match loaded {
        Err(e) => r == Err::<T, Error>(e),
        Ok(_) => r matches Err(Error::MalformedPrompt(n)) && n@ == name,
    }
}

/// Loads the prompt template `name` and strips its documentation sections.
pub fn load_prompt<
    I: IssueTracker,
    S: SourceControl,
    R: RemoteClient,
    A: AgentRunner,
    E: EventSink,
    P: PromptLoader,
    J: JsonDecoder,
>(ctx: &mut Context<I, S, R, A, E, P, J>, name: &str) -> (r: Result<String, Error>)
    ensures
        final(ctx).log().len() == old(ctx).log().len() + 1,
        final(ctx).extends(old(ctx)),
        final(ctx).spent() == old(ctx).spent(),
        final(ctx).log().last() matches Call::LoadPrompt(n, loaded) && n == name@
            && template_result(name@, loaded, r),
        r matches Err(e) ==> ended_by(final(ctx).log(), old(ctx).log().len() as int, e),
{
    let loaded = ctx.load_prompt_template(name);
    match loaded {
        Err(e) => Err(e),
        Ok(raw) => match try_strip_prompt_docs(raw.as_str()) {
            Some(t) => Ok(t),
            None => Err(Error::MalformedPrompt(name.to_string())),
        },
    }
}

// ---------------------------------------------------------------------------
// The implementation action

/// The tag with which a review reports findings.
pub open spec fn findings_tag() -> Seq<char> {
    "<reviewResult>FINDINGS</reviewResult>"@
}

/// The tag with which a feature review reports in-scope findings.
pub open spec fn in_scope_findings_tag() -> Seq<char> {
    "<featureReviewResult>IN_SCOPE_FINDINGS</featureReviewResult>"@
}

/// The calls from index `s` of `log` to its end are one run of `implement`
/// for issue `id`, started with `spent` invocations used, and `r` is its result:
/// fetch the issue; stop if that failed or the issue is labeled `hitl`; claim it;
/// report the agent start; load the `implement` template; run the agent on the
/// rendered prompt if the budget allows; mark the issue complete if the agent
/// succeeded; report the end of the run. A failed call ends the action with its error.
pub open spec fn implement_ran(
    id: u64,
    cfg: RunConfig,
    spent: nat,
    log: Seq<Call>,
    s: int,
    r: Result<(), Error>,
) -> bool {
    &&& 0 <= s < log.len()
    &&& log[s] matches Call::GetIssue(i0, fetched) && i0 == id && match fetched {
        Err(e) => log.len() == s + 1 && r == Err::<(), Error>(e),
        Ok(issue) => if issue@.has_label(crate::traits::hitl_label()) {
            log.len() == s + 1 && r is Ok
        } else {
            implement_claimed(id, issue@, cfg, spent, log, s + 1, r)
        },
    }
}

/// The part of [`implement_ran`] from the claim on.
pub open spec fn implement_claimed(
    id: u64,
    issue: IssueView,
    cfg: RunConfig,
    spent: nat,
    log: Seq<Call>,
    s: int,
    r: Result<(), Error>,
) -> bool {
    &&& 0 <= s < log.len()
    &&& log[s] matches Call::Claim(i1, claimed) && i1 == id && match claimed {
        Err(e) => log.len() == s + 1 && r == Err::<(), Error>(e),
        Ok(_) => {
            &&& s + 2 < log.len()
            &&& log[s + 1] == Call::Emit(Event::AgentStarted(id))
            &&& log[s + 2] matches Call::LoadPrompt(n, loaded) && n == "implement"@ && match usable_template(loaded) {
                None => log.len() == s + 3 && template_failure("implement"@, loaded, r),
                Some(t) => implement_prompted(
                    id,
                    implement_prompt(t, issue, cfg.repo_context@),
                    cfg,
                    spent,
                    log,
                    s + 3,
                    r,
                ),
            }
        },
    }
}

/// The part of [`implement_ran`] from the agent invocation on.
pub open spec fn implement_prompted(
    id: u64,
    prompt: Seq<char>,
    cfg: RunConfig,
    spent: nat,
    log: Seq<Call>,
    s: int,
    r: Result<(), Error>,
) -> bool {
    if spent >= cfg.max_iterations {
        &&& 0 <= s && log.len() == s + 1
        &&& log[s] == Call::AgentRefused(prompt)
        &&& r matches Err(Error::BudgetExhausted)
    } else {
        &&& 0 <= s < log.len()
        &&& log[s] matches Call::RunAgent(p, ran) && p == prompt && match ran {
            Err(e) => log.len() == s + 1 && r == Err::<(), Error>(e),
            Ok(out) => if out.success {
                &&& s + 1 < log.len()
                &&& log[s + 1] matches Call::Complete(i2, done) && i2 == id && match done {
                    Err(e) => log.len() == s + 2 && r == Err::<(), Error>(e),
                    Ok(_) => {
                        &&& log.len() == s + 4
                        &&& log[s + 2] == Call::Emit(Event::IssueComplete(id))
                        &&& log[s + 3] == Call::Emit(Event::RunComplete)
                        &&& r is Ok
                    },
                }
            } else {
                &&& log.len() == s + 2
                &&& log[s + 1] == Call::Emit(Event::RunComplete)
                &&& r is Ok
            },
        }
    }
}

/// Implements issue `issue_id`: claims it, runs the agent on the
/// implementation prompt, and marks it complete when the agent succeeds.
/// Issues labeled `hitl` are left alone.
pub fn implement<
    I: IssueTracker,
    S: SourceControl,
    R: RemoteClient,
    A: AgentRunner,
    E: EventSink,
    P: PromptLoader,
    J: JsonDecoder,
>(issue_id: u64, ctx: &mut Context<I, S, R, A, E, P, J>) -> (r: Result<(), Error>)
    ensures
        final(ctx).extends(old(ctx)),
        final(ctx).spent() <= old(ctx).spent() + 1,
        implement_ran(
            issue_id,
            old(ctx).settings(),
            old(ctx).spent(),
            final(ctx).log(),
            old(ctx).log().len() as int,
            r,
        ),
        r matches Err(e) ==> ended_by(final(ctx).log(), old(ctx).log().len() as int, e),
{
    let ghost s = old(ctx).log().len() as int;
    let issue = match ctx.get_issue(issue_id) {
        Err(e) => return Err(e),
        Ok(issue) => issue,
    };
    if has_label(&issue.labels, "hitl") {
        return Ok(());
    }
    match ctx.claim_issue(issue_id) {
        Err(e) => return Err(e),
        Ok(()) => {},
    }
    ctx.emit(Event::AgentStarted(issue_id));
    let template = match load_prompt(ctx, "implement") {
        Err(e) => return Err(e),
        Ok(t) => t,
    };
    let prompt = build_implement_prompt(template.as_str(), &issue, ctx.config().repo_context.as_str());
    let output = match ctx.run_agent(prompt.as_str()) {
        Err(e) => return Err(e),
        Ok(o) => o,
    };
    if output.success {
        match ctx.complete_issue(issue_id) {
            Err(e) => return Err(e),
            Ok(()) => {},
        }
        ctx.emit(Event::IssueComplete(issue_id));
    }
    ctx.emit(Event::RunComplete);
    Ok(())
}

// ---------------------------------------------------------------------------
// The actions that show the agent a diff

/// The calls from index `s` of `log` to its end invoke the agent on `prompt`
/// if the budget allows, and `r` is `on_reply` of its reply; a refused or
/// failed invocation ends the action with that error.
pub open spec fn agent_replied<T>(
    prompt: Seq<char>,
    cfg: RunConfig,
    spent: nat,
    log: Seq<Call>,
    s: int,
    r: Result<T, Error>,
    on_reply: spec_fn(AgentOutput) -> T,
) -> bool {
    if spent >= cfg.max_iterations {
        &&& 0 <= s && log.len() == s + 1
        &&& log[s] == Call::AgentRefused(prompt)
        &&& r matches Err(Error::BudgetExhausted)
    } else {
        &&& 0 <= s && log.len() == s + 1
        &&& log[s] matches Call::RunAgent(p, ran) && p == prompt && match ran {
            Err(e) => r == Err::<T, Error>(e),
            Ok(out) => r == Ok::<T, Error>(on_reply(out)),
        }
    }
}

/// The calls from index `s` of `log` to its end fetch issue `id`, diff the
/// work against the base branch, load the template `name`, and invoke the
/// agent on the prompt rendered from them; `r` is `on_reply` of the agent's
/// reply, or the error of the first call that failed.
pub open spec fn diff_action_ran<T>(
    id: u64,
    name: Seq<char>,
    cfg: RunConfig,
    spent: nat,
    log: Seq<Call>,
    s: int,
    r: Result<T, Error>,
    on_reply: spec_fn(AgentOutput) -> T,
) -> bool {
    &&& 0 <= s < log.len()
    &&& log[s] matches Call::GetIssue(i0, fetched) && i0 == id && match fetched {
        Err(e) => log.len() == s + 1 && r == Err::<T, Error>(e),
        Ok(issue) => {
            &&& s + 1 < log.len()
            &&& log[s + 1] matches Call::Diff(b, diffed) && b == cfg.base_branch@ && match diffed {
                Err(e) => log.len() == s + 2 && r == Err::<T, Error>(e),
                Ok(diff) => {
                    &&& s + 2 < log.len()
                    &&& log[s + 2] matches Call::LoadPrompt(n, loaded) && n == name && match usable_template(loaded) {
                        None => log.len() == s + 3 && template_failure(name, loaded, r),
                        Some(t) => agent_replied(
                            diff_prompt(t, issue@, diff@),
                            cfg,
                            spent,
                            log,
                            s + 3,
                            r,
                            on_reply,
                        ),
                    }
                },
            }
        },
    }
}

/// Fetches the issue and the diff, loads the template `name` and runs the agent
/// on the prompt; gives the agent's reply.
fn run_diff_action<
    I: IssueTracker,
    S: SourceControl,
    R: RemoteClient,
    A: AgentRunner,
    E: EventSink,
    P: PromptLoader,
    J: JsonDecoder,
>(issue_id: u64, name: &str, ctx: &mut Context<I, S, R, A, E, P, J>) -> (r: Result<AgentOutput, Error>)
    ensures
        final(ctx).extends(old(ctx)),
        final(ctx).spent() <= old(ctx).spent() + 1,
        r is Ok ==> final(ctx).spent() == old(ctx).spent() + 1,
        r is Ok ==> old(ctx).spent() < old(ctx).settings().max_iterations,
        diff_action_ran(
            issue_id,
            name@,
            old(ctx).settings(),
            old(ctx).spent(),
            final(ctx).log(),
            old(ctx).log().len() as int,
            r,
            |o: AgentOutput| o,
        ),
{
    let issue = match ctx.get_issue(issue_id) {
        Err(e) => return Err(e),
        Ok(issue) => issue,
    };
    let base = ctx.config().base_branch.clone();
    let diff = match ctx.diff_from_base(base.as_str()) {
        Err(e) => return Err(e),
        Ok(d) => d,
    };
    let template = match load_prompt(ctx, name) {
        Err(e) => return Err(e),
        Ok(t) => t,
    };
    let prompt = build_diff_prompt(template.as_str(), &issue, diff.as_str());
    ctx.run_agent(prompt.as_str())
}

/// Reviews the work on issue `issue_id`: true when the review reports
/// findings with the tag `<reviewResult>FINDINGS</reviewResult>`.
pub fn review<
    I: IssueTracker,
    S: SourceControl,
    R: RemoteClient,
    A: AgentRunner,
    E: EventSink,
    P: PromptLoader,
    J: JsonDecoder,
>(issue_id: u64, ctx: &mut Context<I, S, R, A, E, P, J>) -> (r: Result<bool, Error>)
    ensures
        final(ctx).extends(old(ctx)),
        final(ctx).spent() <= old(ctx).spent() + 1,
        r is Ok ==> final(ctx).spent() == old(ctx).spent() + 1,
        r is Ok ==> old(ctx).spent() < old(ctx).settings().max_iterations,
        diff_action_ran(
            issue_id,
            "review"@,
            old(ctx).settings(),
            old(ctx).spent(),
            final(ctx).log(),
            old(ctx).log().len() as int,
            r,
            |o: AgentOutput| contains(o.stdout@, findings_tag()),
        ),
        r matches Err(e) ==> ended_by(final(ctx).log(), old(ctx).log().len() as int, e),
{
    match run_diff_action(issue_id, "review", ctx) {
        Err(e) => Err(e),
        Ok(output) => Ok(contains_str(output.stdout.as_str(), "<reviewResult>FINDINGS</reviewResult>")),
    }
}

/// Reviews a whole feature: true when the review reports findings with the
/// tag `<featureReviewResult>IN_SCOPE_FINDINGS</featureReviewResult>`.
pub fn feature_review<
    I: IssueTracker,
    S: SourceControl,
    R: RemoteClient,
    A: AgentRunner,
    E: EventSink,
    P: PromptLoader,
    J: JsonDecoder,
>(issue_id: u64, ctx: &mut Context<I, S, R, A, E, P, J>) -> (r: Result<bool, Error>)
    ensures
        final(ctx).extends(old(ctx)),
        final(ctx).spent() <= old(ctx).spent() + 1,
        r is Ok ==> final(ctx).spent() == old(ctx).spent() + 1,
        r is Ok ==> old(ctx).spent() < old(ctx).settings().max_iterations,
        diff_action_ran(
            issue_id,
            "feature_review"@,
            old(ctx).settings(),
            old(ctx).spent(),
            final(ctx).log(),
            old(ctx).log().len() as int,
            r,
            |o: AgentOutput| contains(o.stdout@, in_scope_findings_tag()),
        ),
        r matches Err(e) ==> ended_by(final(ctx).log(), old(ctx).log().len() as int, e),
{
    match run_diff_action(issue_id, "feature_review", ctx) {
        Err(e) => Err(e),
        Ok(output) => Ok(
            contains_str(
                output.stdout.as_str(),
                "<featureReviewResult>IN_SCOPE_FINDINGS</featureReviewResult>",
            ),
        ),
    }
}

/// Asks the agent for instructions with which a person can test the work on the issue.
pub fn generate_test_instructions<
    I: IssueTracker,
    S: SourceControl,
    R: RemoteClient,
    A: AgentRunner,
    E: EventSink,
    P: PromptLoader,
    J: JsonDecoder,
>(issue_id: u64, ctx: &mut Context<I, S, R, A, E, P, J>) -> (r: Result<(), Error>)
    ensures
        final(ctx).extends(old(ctx)),
        final(ctx).spent() <= old(ctx).spent() + 1,
        r is Ok ==> final(ctx).spent() == old(ctx).spent() + 1,
        r is Ok ==> old(ctx).spent() < old(ctx).settings().max_iterations,
        diff_action_ran(
            issue_id,
            "test_instructions"@,
            old(ctx).settings(),
            old(ctx).spent(),
            final(ctx).log(),
            old(ctx).log().len() as int,
            r,
            |o: AgentOutput| (),
        ),
        r matches Err(e) ==> ended_by(final(ctx).log(), old(ctx).log().len() as int, e),
{
    match run_diff_action(issue_id, "test_instructions", ctx) {
        Err(e) => Err(e),
        Ok(_) => Ok(()),
    }
}

// ---------------------------------------------------------------------------
// Planning

/// The calls from index `s` of `log` to its end are one run of `plan_order`
/// for `issues`: load the `plan_order` template, run the agent on the prompt
/// that lists the issues, and decode the trimmed reply as the plan. `r` is the
/// decoded list of ids, or the error of the first step that failed.
pub open spec fn plan_order_ran(
    issues: Seq<IssueView>,
    cfg: RunConfig,
    spent: nat,
    log: Seq<Call>,
    s: int,
    r: Result<Vec<u64>, Error>,
) -> bool {
    &&& 0 <= s < log.len()
    &&& log[s] matches Call::LoadPrompt(n, loaded) && n == "plan_order"@ && match usable_template(loaded) {
        None => log.len() == s + 1 && template_failure("plan_order"@, loaded, r),
        Some(t) => if spent >= cfg.max_iterations {
            &&& log.len() == s + 2
            &&& log[s + 1] == Call::AgentRefused(plan_order_prompt(t, issues))
            &&& r matches Err(Error::BudgetExhausted)
        } else {
            &&& s + 1 < log.len()
            &&& log[s + 1] matches Call::RunAgent(p, ran) && p == plan_order_prompt(t, issues) && match ran {
                Err(e) => log.len() == s + 2 && r == Err::<Vec<u64>, Error>(e),
                Ok(out) => {
                    &&& log.len() == s + 3
                    &&& log[s + 2] matches Call::DecodePlan(text, decoded) && text == trim(out.stdout@) && match decoded {
                        Ok(ids) => r matches Ok(v) && v@ == ids@,
                        Err(m) => r matches Err(Error::InvalidJson(m2)) && m2@ == m@,
                    }
                },
            }
        },
    }
}

/// Asks the agent in which order to work through `issues`, and gives the ids
/// in that order.
pub fn plan_order<
    I: IssueTracker,
    S: SourceControl,
    R: RemoteClient,
    A: AgentRunner,
    E: EventSink,
    P: PromptLoader,
    J: JsonDecoder,
>(issues: &[Issue], ctx: &mut Context<I, S, R, A, E, P, J>) -> (r: Result<Vec<u64>, Error>)
    ensures
        final(ctx).extends(old(ctx)),
        final(ctx).spent() <= old(ctx).spent() + 1,
        r is Ok ==> final(ctx).spent() == old(ctx).spent() + 1,
        r is Ok ==> old(ctx).spent() < old(ctx).settings().max_iterations,
        plan_order_ran(
            issue_views(issues@),
            old(ctx).settings(),
            old(ctx).spent(),
            final(ctx).log(),
            old(ctx).log().len() as int,
            r,
        ),
        r matches Err(e) ==> ended_by(final(ctx).log(), old(ctx).log().len() as int, e),
{
    let template = match load_prompt(ctx, "plan_order") {
        Err(e) => return Err(e),
        Ok(t) => t,
    };
    let prompt = build_plan_order_prompt(template.as_str(), issues);
    let output = match ctx.run_agent(prompt.as_str()) {
        Err(e) => return Err(e),
        Ok(o) => o,
    };
    let text = trim_str(output.stdout.as_str());
    match ctx.decode_plan(text.as_str()) {
        Ok(ids) => Ok(ids),
        Err(m) => Err(Error::InvalidJson(m)),
    }
}

} // verus!
