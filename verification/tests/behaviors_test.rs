use std::cell::RefCell;
use std::collections::VecDeque;
use std::rc::Rc;

use intern::actions::implement;
use intern::behaviors::{complete_feature, complete_ticket};
use intern::context::Context;
use intern::github::types::{GhIssue, GhLabel};
use intern::traits::{
    AgentOutput, AgentRunner, DirtyBehavior, Error, Event, EventSink, Issue, IssueTracker,
    IssueType, JsonDecoder, MergeStrategy, PromptLoader, RemoteClient, RunConfig, SourceControl,
};
use intern::workflows::{clear_workflow, implement_workflow, review_workflow};

// --- Fake issue tracker ---

type ChildrenHandle = Rc<RefCell<VecDeque<Vec<Issue>>>>;
type Ids = Rc<RefCell<Vec<u64>>>;

struct FakeIssueTracker {
    issues: Vec<Issue>,
    children_calls: ChildrenHandle,
    claimed: Ids,
    completed: Ids,
    skipped: Ids,
}

impl FakeIssueTracker {
    fn new(issue: Issue) -> (Self, Ids, Ids, Ids, ChildrenHandle) {
        Self::with_issues(vec![issue])
    }

    fn with_issues(issues: Vec<Issue>) -> (Self, Ids, Ids, Ids, ChildrenHandle) {
        let claimed = Rc::new(RefCell::new(vec![]));
        let completed = Rc::new(RefCell::new(vec![]));
        let skipped = Rc::new(RefCell::new(vec![]));
        let children_calls: ChildrenHandle = Rc::new(RefCell::new(VecDeque::new()));
        (
            Self {
                issues,
                children_calls: children_calls.clone(),
                claimed: claimed.clone(),
                completed: completed.clone(),
                skipped: skipped.clone(),
            },
            claimed,
            completed,
            skipped,
            children_calls,
        )
    }
}

impl IssueTracker for FakeIssueTracker {
    fn get_issue(&self, id: u64) -> Result<Issue, Error> {
        self.issues
            .iter()
            .find(|i| i.id == id)
            .cloned()
            .ok_or_else(|| Error::Failed(format!("issue {id} not found in fake")))
    }
    fn get_children(&self, _id: u64) -> Result<Vec<Issue>, Error> {
        Ok(self.children_calls.borrow_mut().pop_front().unwrap_or_default())
    }
    fn get_issues_by_label(&self, _label: &str) -> Result<Vec<Issue>, Error> {
        Ok(self.issues.clone())
    }
    fn claim_issue(&self, id: u64) -> Result<(), Error> {
        self.claimed.borrow_mut().push(id);
        Ok(())
    }
    fn complete_issue(&self, id: u64) -> Result<(), Error> {
        self.completed.borrow_mut().push(id);
        Ok(())
    }
    fn skip_issue(&self, id: u64) -> Result<(), Error> {
        self.skipped.borrow_mut().push(id);
        Ok(())
    }
    fn post_comment(&self, _id: u64, _body: &str) -> Result<(), Error> {
        Ok(())
    }
    fn create_child_issue(&self, _parent_id: u64, _title: &str, _body: &str) -> Result<Issue, Error> {
        Err(Error::Failed("not supported by the fake".to_string()))
    }
    fn issue_type(&self, id: u64) -> Result<IssueType, Error> {
        let feature = self
            .issues
            .iter()
            .any(|i| i.id == id && i.labels.iter().any(|l| l == "feature"));
        Ok(if feature { IssueType::Feature } else { IssueType::Ticket })
    }
}

// --- Source control ---

struct FakeSourceControl;
impl SourceControl for FakeSourceControl {
    fn create_branch(&self, _name: &str, _from: &str) -> Result<(), Error> {
        Ok(())
    }
    fn current_branch(&self) -> Result<String, Error> {
        Ok("main".to_string())
    }
    fn diff_from_base(&self, _base: &str) -> Result<String, Error> {
        Ok(String::new())
    }
    fn has_uncommitted_changes(&self) -> Result<bool, Error> {
        Ok(false)
    }
    fn has_commits_since(&self, _: &str) -> Result<bool, Error> {
        Ok(true)
    }
    fn stage(&self, _paths: Option<&[&str]>) -> Result<(), Error> {
        Ok(())
    }
    fn commit(&self, _message: &str) -> Result<(), Error> {
        Ok(())
    }
}

type Branches = Rc<RefCell<Vec<(String, String)>>>;
type Commits = Rc<RefCell<Vec<String>>>;
type Stages = Rc<RefCell<Vec<Option<Vec<String>>>>>;

struct RecordingSourceControl {
    branches_created: Branches,
    commits_made: Commits,
    stages_made: Stages,
    diffs_from: Commits,
    current_branch_result: String,
    uncommitted_changes: bool,
    has_commits: bool,
}

fn recording_source_control(current_branch: &str) -> (RecordingSourceControl, Branches) {
    let branches = Rc::new(RefCell::new(vec![]));
    let sc = RecordingSourceControl {
        branches_created: branches.clone(),
        commits_made: Rc::new(RefCell::new(vec![])),
        stages_made: Rc::new(RefCell::new(vec![])),
        diffs_from: Rc::new(RefCell::new(vec![])),
        current_branch_result: current_branch.to_string(),
        uncommitted_changes: false,
        has_commits: true,
    };
    (sc, branches)
}

fn recording_source_control_full(
    current_branch: &str,
    uncommitted_changes: bool,
    has_commits: bool,
) -> (RecordingSourceControl, Commits, Stages) {
    let commits = Rc::new(RefCell::new(vec![]));
    let stages = Rc::new(RefCell::new(vec![]));
    let sc = RecordingSourceControl {
        branches_created: Rc::new(RefCell::new(vec![])),
        commits_made: commits.clone(),
        stages_made: stages.clone(),
        diffs_from: Rc::new(RefCell::new(vec![])),
        current_branch_result: current_branch.to_string(),
        uncommitted_changes,
        has_commits,
    };
    (sc, commits, stages)
}

impl SourceControl for RecordingSourceControl {
    fn create_branch(&self, name: &str, from: &str) -> Result<(), Error> {
        self.branches_created.borrow_mut().push((name.to_string(), from.to_string()));
        Ok(())
    }
    fn current_branch(&self) -> Result<String, Error> {
        Ok(self.current_branch_result.clone())
    }
    fn diff_from_base(&self, base: &str) -> Result<String, Error> {
        self.diffs_from.borrow_mut().push(base.to_string());
        Ok(String::new())
    }
    fn has_uncommitted_changes(&self) -> Result<bool, Error> {
        Ok(self.uncommitted_changes)
    }
    fn has_commits_since(&self, _: &str) -> Result<bool, Error> {
        Ok(self.has_commits)
    }
    fn stage(&self, paths: Option<&[&str]>) -> Result<(), Error> {
        self.stages_made
            .borrow_mut()
            .push(paths.map(|p| p.iter().map(|s| s.to_string()).collect()));
        Ok(())
    }
    fn commit(&self, message: &str) -> Result<(), Error> {
        self.commits_made.borrow_mut().push(message.to_string());
        Ok(())
    }
}

// --- Remote, events, agent ---

struct FakeRemoteClient;
impl RemoteClient for FakeRemoteClient {
    fn create_pr(&self, _title: &str, _body: &str, _branch: &str) -> Result<String, Error> {
        Ok("https://github.com/example/repo/pull/1".to_string())
    }
}

struct RecordingRemoteClient {
    calls: Commits,
}

impl RecordingRemoteClient {
    fn new() -> (Self, Commits) {
        let calls = Rc::new(RefCell::new(vec![]));
        (Self { calls: calls.clone() }, calls)
    }
}

impl RemoteClient for RecordingRemoteClient {
    fn create_pr(&self, _title: &str, _body: &str, branch: &str) -> Result<String, Error> {
        self.calls.borrow_mut().push(branch.to_string());
        Ok(format!("https://github.com/example/repo/pull/{}", self.calls.borrow().len()))
    }
}

struct FakeEventSink;
impl EventSink for FakeEventSink {
    fn emit(&self, _event: Event) {}
}

struct FakeRunner {
    success: bool,
    prompt_received: Rc<RefCell<Option<String>>>,
}

impl FakeRunner {
    fn succeeds() -> (Self, Rc<RefCell<Option<String>>>) {
        let prompt = Rc::new(RefCell::new(None));
        (Self { success: true, prompt_received: prompt.clone() }, prompt)
    }
    fn fails() -> Self {
        Self { success: false, prompt_received: Rc::new(RefCell::new(None)) }
    }
}

impl AgentRunner for FakeRunner {
    fn run(&self, prompt: &str, _config: &RunConfig) -> Result<AgentOutput, Error> {
        *self.prompt_received.borrow_mut() = Some(prompt.to_string());
        Ok(AgentOutput { stdout: String::new(), success: self.success })
    }
}

struct SequencedRunner {
    responses: RefCell<VecDeque<AgentOutput>>,
}

impl SequencedRunner {
    fn new(responses: Vec<AgentOutput>) -> Self {
        Self { responses: RefCell::new(responses.into()) }
    }
}

impl AgentRunner for SequencedRunner {
    fn run(&self, _prompt: &str, _config: &RunConfig) -> Result<AgentOutput, Error> {
        self.responses
            .borrow_mut()
            .pop_front()
            .ok_or_else(|| Error::Failed("SequencedRunner: no more responses queued".to_string()))
    }
}

// --- Prompt files and JSON ---

/// The prompt templates of a repository, by name, held in memory.
#[derive(Clone)]
struct Prompts(Vec<(String, String)>);

impl PromptLoader for Prompts {
    fn load(&self, name: &str) -> Result<String, Error> {
        self.0
            .iter()
            .find(|(n, _)| n == name)
            .map(|(_, c)| c.clone())
            .ok_or(Error::MissingPrompt(format!(".intern/prompts/{name}.md")))
    }
}

struct ValueJson;

fn gh_issue_of(v: &serde_json::Value) -> Result<GhIssue, String> {
    let number = v["number"].as_u64().ok_or("number missing")?;
    let title = v["title"].as_str().ok_or("title missing")?.to_string();
    let body = v["body"].as_str().unwrap_or("").to_string();
    let labels = v["labels"]
        .as_array()
        .ok_or("labels missing")?
        .iter()
        .map(|l| GhLabel { name: l["name"].as_str().unwrap_or("").to_string() })
        .collect();
    Ok(GhIssue { number, title, body, labels })
}

impl JsonDecoder for ValueJson {
    fn decode_plan(&self, text: &str) -> Result<Vec<u64>, String> {
        let v: serde_json::Value = serde_json::from_str(text).map_err(|e| e.to_string())?;
        v.as_array()
            .ok_or("expected an array")?
            .iter()
            .map(|item| item["id"].as_u64().ok_or_else(|| "id missing".to_string()))
            .collect()
    }
    fn decode_issue(&self, text: &str) -> Result<GhIssue, String> {
        let v: serde_json::Value = serde_json::from_str(text).map_err(|e| e.to_string())?;
        gh_issue_of(&v)
    }
    fn decode_issues(&self, text: &str) -> Result<Vec<GhIssue>, String> {
        let v: serde_json::Value = serde_json::from_str(text).map_err(|e| e.to_string())?;
        v.as_array().ok_or("expected an array")?.iter().map(gh_issue_of).collect()
    }
}

// --- Helpers ---

type Ctx<S, R, A> = Context<FakeIssueTracker, S, R, A, FakeEventSink, Prompts, ValueJson>;

fn make_issue(id: u64, labels: Vec<&str>) -> Issue {
    Issue {
        id,
        title: format!("Issue {id}"),
        body: format!("Body of issue {id}"),
        labels: labels.into_iter().map(|s| s.to_string()).collect(),
    }
}

fn agent_success(stdout: &str) -> AgentOutput {
    AgentOutput { stdout: stdout.to_string(), success: true }
}

fn make_prompts_dir() -> Prompts {
    Prompts(
        ["implement", "review", "feature_review", "plan_order", "test_instructions"]
            .iter()
            .map(|name| {
                (
                    name.to_string(),
                    "{{issue_id}} {{issue_title}} {{issue_body}} {{diff}} {{issues_list}} {{repo_context}}"
                        .to_string(),
                )
            })
            .collect(),
    )
}

fn run_config(
    dir: &Prompts,
    max_iterations: u32,
    strategy: MergeStrategy,
    base_branch: &str,
    on_dirty_after_commit: DirtyBehavior,
    on_dirty_no_commits: DirtyBehavior,
) -> RunConfig {
    RunConfig {
        max_iterations,
        merge_strategy: strategy,
        base_branch: base_branch.to_string(),
        use_worktree: false,
        on_dirty_after_commit,
        on_dirty_no_commits,
        dry_run: false,
        repo_context: String::new(),
        work_directory: ".".to_string(),
    }
}

fn context_with<S: SourceControl, R: RemoteClient, A: AgentRunner>(
    tracker: FakeIssueTracker,
    sc: S,
    remote: R,
    runner: A,
    config: RunConfig,
    dir: &Prompts,
) -> Ctx<S, R, A> {
    Context::new(
        tracker,
        sc,
        remote,
        runner,
        FakeEventSink,
        dir.clone(),
        ValueJson,
        config,
    )
}

fn make_context(
    tracker: FakeIssueTracker,
    runner: FakeRunner,
) -> (Ctx<FakeSourceControl, FakeRemoteClient, FakeRunner>, Prompts) {
    let dir = make_prompts_dir();
    let config = run_config(&dir, 10, MergeStrategy::Direct, "main", DirtyBehavior::Warn, DirtyBehavior::Fail);
    let ctx = context_with(tracker, FakeSourceControl, FakeRemoteClient, runner, config, &dir);
    (ctx, dir)
}

fn make_context_sequenced(
    tracker: FakeIssueTracker,
    runner: SequencedRunner,
    max_iterations: u32,
) -> (Ctx<FakeSourceControl, FakeRemoteClient, SequencedRunner>, Prompts) {
    let dir = make_prompts_dir();
    let config = run_config(
        &dir,
        max_iterations,
        MergeStrategy::Direct,
        "main",
        DirtyBehavior::Warn,
        DirtyBehavior::Fail,
    );
    let ctx = context_with(tracker, FakeSourceControl, FakeRemoteClient, runner, config, &dir);
    (ctx, dir)
}

fn sequenced_clean_run() -> SequencedRunner {
    SequencedRunner::new(vec![
        agent_success(""),
        agent_success("<reviewResult>CLEAN</reviewResult>"),
        agent_success(""),
    ])
}

fn make_context_dirty(
    tracker: FakeIssueTracker,
    runner: SequencedRunner,
    sc: RecordingSourceControl,
    on_dirty_after_commit: DirtyBehavior,
    on_dirty_no_commits: DirtyBehavior,
) -> (Ctx<RecordingSourceControl, FakeRemoteClient, SequencedRunner>, Prompts) {
    let dir = make_prompts_dir();
    let config = run_config(&dir, 10, MergeStrategy::Direct, "main", on_dirty_after_commit, on_dirty_no_commits);
    let ctx = context_with(tracker, sc, FakeRemoteClient, runner, config, &dir);
    (ctx, dir)
}

fn feature_runner() -> SequencedRunner {
    SequencedRunner::new(vec![
        agent_success(r#"[{"id": 10}]"#),
        agent_success(""),
        agent_success("<reviewResult>CLEAN</reviewResult>"),
        agent_success(""),
        agent_success("<featureReviewResult>CLEAN</featureReviewResult>"),
        agent_success(""),
    ])
}

// --- implement action ---

#[test]
fn implement_fn_claims_issue_before_running_agent() {
    let (tracker, claimed, _, _, _) = FakeIssueTracker::new(make_issue(42, vec![]));
    let (runner, _) = FakeRunner::succeeds();
    let (mut ctx, _dir) = make_context(tracker, runner);

    implement(42, &mut ctx).unwrap();

    assert!(claimed.borrow().contains(&42));
}

#[test]
fn implement_fn_runs_agent_with_issue_content_in_prompt() {
    let (tracker, _, _, _, _) = FakeIssueTracker::new(make_issue(42, vec![]));
    let (runner, prompt) = FakeRunner::succeeds();
    let (mut ctx, _dir) = make_context(tracker, runner);

    implement(42, &mut ctx).unwrap();

    let prompt = prompt.borrow();
    let prompt = prompt.as_ref().unwrap();
    assert!(prompt.contains("Issue 42"));
    assert!(prompt.contains("Body of issue 42"));
}

#[test]
fn implement_fn_marks_complete_when_agent_succeeds() {
    let (tracker, _, completed, _, _) = FakeIssueTracker::new(make_issue(42, vec![]));
    let (runner, _) = FakeRunner::succeeds();
    let (mut ctx, _dir) = make_context(tracker, runner);

    implement(42, &mut ctx).unwrap();

    assert!(completed.borrow().contains(&42));
}

#[test]
fn implement_fn_skips_hitl_issues_without_running_agent() {
    let (tracker, claimed, _, _, _) = FakeIssueTracker::new(make_issue(42, vec!["hitl"]));
    let (runner, prompt) = FakeRunner::succeeds();
    let (mut ctx, _dir) = make_context(tracker, runner);

    implement(42, &mut ctx).unwrap();

    assert!(claimed.borrow().is_empty());
    assert!(prompt.borrow().is_none());
    assert_eq!(ctx.iterations_used(), 0);
}

#[test]
fn implement_fn_does_not_mark_complete_when_agent_fails() {
    let (tracker, _, completed, _, _) = FakeIssueTracker::new(make_issue(42, vec![]));
    let runner = FakeRunner::fails();
    let (mut ctx, _dir) = make_context(tracker, runner);

    implement(42, &mut ctx).unwrap();

    assert!(completed.borrow().is_empty());
}

#[test]
fn implement_fn_puts_repo_context_in_prompt() {
    let (tracker, _, _, _, _) = FakeIssueTracker::new(make_issue(42, vec![]));
    let (runner, prompt) = FakeRunner::succeeds();
    let dir = make_prompts_dir();
    let mut config = run_config(&dir, 10, MergeStrategy::Direct, "main", DirtyBehavior::Warn, DirtyBehavior::Fail);
    config.repo_context = "use snake_case everywhere".to_string();
    let mut ctx = context_with(tracker, FakeSourceControl, FakeRemoteClient, runner, config, &dir);

    implement(42, &mut ctx).unwrap();

    assert_eq!(
        prompt.borrow().as_deref(),
        Some("42 Issue 42 Body of issue 42 {{diff}} {{issues_list}} use snake_case everywhere")
    );
}

#[test]
fn implement_fn_fails_when_prompt_file_is_missing() {
    let (tracker, claimed, _, _, _) = FakeIssueTracker::new(make_issue(42, vec![]));
    let (runner, prompt) = FakeRunner::succeeds();
    let dir = Prompts(vec![]);
    let config = run_config(&dir, 10, MergeStrategy::Direct, "main", DirtyBehavior::Warn, DirtyBehavior::Fail);
    let mut ctx = context_with(tracker, FakeSourceControl, FakeRemoteClient, runner, config, &dir);

    let err = implement(42, &mut ctx).unwrap_err();

    assert!(matches!(err, Error::MissingPrompt(_)));
    assert!(err.message().contains("missing prompt file"));
    assert_eq!(*claimed.borrow(), vec![42]);
    assert!(prompt.borrow().is_none());
}

// --- complete_ticket ---

#[test]
fn complete_ticket_runs_implement_review_and_instructions_when_clean() {
    let (tracker, _, _, _, _) = FakeIssueTracker::new(make_issue(42, vec![]));
    let runner = SequencedRunner::new(vec![
        agent_success(""),      // implement
        agent_success("CLEAN"), // review
        agent_success(""),      // generate_test_instructions
    ]);
    let (mut ctx, _dir) = make_context_sequenced(tracker, runner, 10);

    complete_ticket(42, &mut ctx, "main").unwrap();

    assert_eq!(ctx.iterations_used(), 3);
}

#[test]
fn complete_ticket_loops_when_review_has_findings() {
    let (tracker, _, _, _, _) = FakeIssueTracker::new(make_issue(42, vec![]));
    let runner = SequencedRunner::new(vec![
        agent_success(""),                                      // implement
        agent_success("<reviewResult>FINDINGS</reviewResult>"), // review — findings
        agent_success(""),                                      // implement again
        agent_success("<reviewResult>CLEAN</reviewResult>"),    // review — clean
        agent_success(""),                                      // generate_test_instructions
    ]);
    let (mut ctx, _dir) = make_context_sequenced(tracker, runner, 10);

    complete_ticket(42, &mut ctx, "main").unwrap();

    assert_eq!(ctx.iterations_used(), 5);
}

#[test]
fn complete_ticket_marks_skipped_when_budget_exhausted() {
    let (tracker, _, _, skipped, _) = FakeIssueTracker::new(make_issue(42, vec![]));
    let runner = SequencedRunner::new(vec![
        agent_success(""), // implement uses the only iteration
    ]);
    let (mut ctx, _dir) = make_context_sequenced(tracker, runner, 1);

    complete_ticket(42, &mut ctx, "main").unwrap();

    assert!(skipped.borrow().contains(&42));
    assert_eq!(ctx.iterations_used(), 1);
}

#[test]
fn complete_ticket_never_exceeds_budget_while_review_keeps_finding() {
    let (tracker, _, _, skipped, _) = FakeIssueTracker::new(make_issue(42, vec![]));
    let runner = SequencedRunner::new(
        (0..10)
            .map(|_| agent_success("<reviewResult>FINDINGS</reviewResult>"))
            .collect(),
    );
    let (mut ctx, _dir) = make_context_sequenced(tracker, runner, 4);

    complete_ticket(42, &mut ctx, "main").unwrap();

    assert_eq!(ctx.iterations_used(), 4);
    assert_eq!(*skipped.borrow(), vec![42]);
}

#[test]
fn complete_ticket_reviews_the_diff_from_the_base_branch() {
    let (tracker, _, _, _, _) = FakeIssueTracker::new(make_issue(42, vec![]));
    let (sc, _, _) = recording_source_control_full("develop", false, true);
    let diffs = sc.diffs_from.clone();
    let dir = make_prompts_dir();
    let config = run_config(&dir, 10, MergeStrategy::Direct, "develop", DirtyBehavior::Warn, DirtyBehavior::Fail);
    let mut ctx = context_with(tracker, sc, FakeRemoteClient, sequenced_clean_run(), config, &dir);

    complete_ticket(42, &mut ctx, "develop").unwrap();

    assert_eq!(*diffs.borrow(), vec!["develop".to_string(), "develop".to_string()]);
}

// --- clear and implement workflows ---

#[test]
fn clear_workflow_executes_tickets_in_plan_order_sequence() {
    let (tracker, claimed, _, _, _) =
        FakeIssueTracker::with_issues(vec![make_issue(1, vec![]), make_issue(2, vec![])]);
    let runner = SequencedRunner::new(vec![
        agent_success(r#"[{"id": 2}, {"id": 1}]"#),            // plan_order
        agent_success(""),                                     // implement issue 2
        agent_success("<reviewResult>CLEAN</reviewResult>"),   // review issue 2
        agent_success(""),                                     // instructions issue 2
        agent_success(""),                                     // implement issue 1
        agent_success("<reviewResult>CLEAN</reviewResult>"),   // review issue 1
        agent_success(""),                                     // instructions issue 1
    ]);
    let (mut ctx, _dir) = make_context_sequenced(tracker, runner, 20);

    clear_workflow("my-label", &mut ctx).unwrap();

    assert_eq!(*claimed.borrow(), vec![2, 1]);
}

#[test]
fn clear_workflow_fails_when_plan_is_not_json() {
    let (tracker, claimed, _, _, _) = FakeIssueTracker::with_issues(vec![make_issue(1, vec![])]);
    let runner = SequencedRunner::new(vec![agent_success("first 1, then 2")]);
    let (mut ctx, _dir) = make_context_sequenced(tracker, runner, 20);

    let err = clear_workflow("my-label", &mut ctx).unwrap_err();

    assert!(matches!(err, Error::InvalidJson(_)));
    assert!(claimed.borrow().is_empty());
}

#[test]
fn implement_workflow_completes_a_ticket() {
    let (tracker, claimed, completed, _, _) = FakeIssueTracker::new(make_issue(42, vec![]));
    let (mut ctx, _dir) = make_context_sequenced(tracker, sequenced_clean_run(), 10);

    implement_workflow(42, &mut ctx).unwrap();

    assert_eq!(*claimed.borrow(), vec![42]);
    assert_eq!(*completed.borrow(), vec![42]);
    assert_eq!(ctx.iterations_used(), 3);
}

#[test]
fn implement_workflow_completes_a_feature_with_its_children() {
    let child = make_issue(10, vec![]);
    let (tracker, claimed, _, _, children_calls) =
        FakeIssueTracker::with_issues(vec![make_issue(99, vec!["feature"]), child.clone()]);
    children_calls.borrow_mut().push_back(vec![child]);
    let (mut ctx, _dir) = make_context_sequenced(tracker, feature_runner(), 20);

    implement_workflow(99, &mut ctx).unwrap();

    assert_eq!(*claimed.borrow(), vec![10]);
    assert_eq!(ctx.iterations_used(), 6);
}

#[test]
fn review_workflow_reports_findings_of_a_ticket() {
    let (tracker, _, _, _, _) = FakeIssueTracker::new(make_issue(42, vec![]));
    let runner = SequencedRunner::new(vec![agent_success("<reviewResult>FINDINGS</reviewResult>")]);
    let (mut ctx, _dir) = make_context_sequenced(tracker, runner, 10);

    assert!(review_workflow(42, &mut ctx).unwrap());
    assert_eq!(ctx.iterations_used(), 1);
}

#[test]
fn review_workflow_uses_the_feature_review_for_a_feature() {
    let (tracker, _, _, _, _) = FakeIssueTracker::new(make_issue(99, vec!["feature"]));
    let runner = SequencedRunner::new(vec![agent_success("<reviewResult>FINDINGS</reviewResult>")]);
    let (mut ctx, _dir) = make_context_sequenced(tracker, runner, 10);

    assert!(!review_workflow(99, &mut ctx).unwrap());
}

// --- complete_feature ---

#[test]
fn complete_feature_executes_children_reviews_and_generates_instructions_when_clean() {
    let child = make_issue(10, vec![]);
    let (tracker, claimed, _, _, children_calls) =
        FakeIssueTracker::with_issues(vec![make_issue(99, vec!["feature"]), child.clone()]);
    children_calls.borrow_mut().push_back(vec![child]);
    let (mut ctx, _dir) = make_context_sequenced(tracker, feature_runner(), 20);

    complete_feature(99, &mut ctx, "main").unwrap();

    assert!(claimed.borrow().contains(&10));
}

#[test]
fn complete_feature_executes_new_children_after_in_scope_findings() {
    let child_1 = make_issue(10, vec![]);
    let child_2 = make_issue(11, vec![]);
    let (tracker, claimed, _, _, children_calls) = FakeIssueTracker::with_issues(vec![
        make_issue(99, vec!["feature"]),
        child_1.clone(),
        child_2.clone(),
    ]);
    children_calls.borrow_mut().push_back(vec![child_1.clone()]);
    children_calls.borrow_mut().push_back(vec![child_1.clone(), child_2]);

    let runner = SequencedRunner::new(vec![
        agent_success(r#"[{"id": 10}]"#),                                              // plan_order (initial)
        agent_success(""),                                                             // implement child 10
        agent_success("<reviewResult>CLEAN</reviewResult>"),                           // review child 10
        agent_success(""),                                                             // instructions child 10
        agent_success("<featureReviewResult>IN_SCOPE_FINDINGS</featureReviewResult>"), // feature_review — findings
        agent_success(r#"[{"id": 11}]"#),                                              // plan_order (new children)
        agent_success(""),                                                             // implement child 11
        agent_success("<reviewResult>CLEAN</reviewResult>"),                           // review child 11
        agent_success(""),                                                             // instructions child 11
        agent_success("<featureReviewResult>CLEAN</featureReviewResult>"),             // second feature_review
        agent_success(""),                                                             // feature instructions
    ]);
    let (mut ctx, _dir) = make_context_sequenced(tracker, runner, 30);

    complete_feature(99, &mut ctx, "main").unwrap();

    assert!(claimed.borrow().contains(&10));
    assert!(claimed.borrow().contains(&11));
}

#[test]
fn complete_feature_marks_skipped_when_second_feature_review_still_has_findings() {
    let child = make_issue(10, vec![]);
    let child_2 = make_issue(11, vec![]);
    let (tracker, _, _, skipped, children_calls) = FakeIssueTracker::with_issues(vec![
        make_issue(99, vec!["feature"]),
        child.clone(),
        child_2.clone(),
    ]);
    children_calls.borrow_mut().push_back(vec![child.clone()]);
    children_calls.borrow_mut().push_back(vec![child.clone(), child_2]);

    let runner = SequencedRunner::new(vec![
        agent_success(r#"[{"id": 10}]"#),                                              // plan_order
        agent_success(""),                                                             // implement 10
        agent_success("<reviewResult>CLEAN</reviewResult>"),                           // review 10
        agent_success(""),                                                             // instructions 10
        agent_success("<featureReviewResult>IN_SCOPE_FINDINGS</featureReviewResult>"), // feature_review 1
        agent_success(r#"[{"id": 11}]"#),                                              // plan_order new
        agent_success(""),                                                             // implement 11
        agent_success("<reviewResult>CLEAN</reviewResult>"),                           // review 11
        agent_success(""),                                                             // instructions 11
        agent_success("<featureReviewResult>IN_SCOPE_FINDINGS</featureReviewResult>"), // feature_review 2 — still findings
    ]);
    let (mut ctx, _dir) = make_context_sequenced(tracker, runner, 30);

    complete_feature(99, &mut ctx, "main").unwrap();

    assert!(skipped.borrow().contains(&99));
}

// --- pull requests ---

#[test]
fn per_ticket_creates_pr_for_ticket() {
    let (tracker, _, _, _, _) = FakeIssueTracker::new(make_issue(1, vec![]));
    let (runner, _) = FakeRunner::succeeds();
    let (sc, _) = recording_source_control("feature/ticket-1");
    let (remote, pr_calls) = RecordingRemoteClient::new();
    let dir = make_prompts_dir();
    let config = run_config(&dir, 10, MergeStrategy::PerTicket, "main", DirtyBehavior::Warn, DirtyBehavior::Fail);
    let mut ctx = context_with(tracker, sc, remote, runner, config, &dir);

    complete_ticket(1, &mut ctx, "main").unwrap();

    assert_eq!(pr_calls.borrow().len(), 1);
    assert_eq!(pr_calls.borrow()[0], "feature/ticket-1");
}

#[test]
fn direct_creates_no_pr() {
    let (tracker, _, _, _, _) = FakeIssueTracker::new(make_issue(1, vec![]));
    let (runner, _) = FakeRunner::succeeds();
    let (sc, _) = recording_source_control("main");
    let (remote, pr_calls) = RecordingRemoteClient::new();
    let dir = make_prompts_dir();
    let config = run_config(&dir, 10, MergeStrategy::Direct, "main", DirtyBehavior::Warn, DirtyBehavior::Fail);
    let mut ctx = context_with(tracker, sc, remote, runner, config, &dir);

    complete_ticket(1, &mut ctx, "main").unwrap();

    assert!(pr_calls.borrow().is_empty());
}

#[test]
fn feature_branch_creates_pr_for_each_child_and_feature() {
    let child = make_issue(10, vec![]);
    let (tracker, _, _, _, children_calls) =
        FakeIssueTracker::with_issues(vec![make_issue(99, vec!["feature"]), child.clone()]);
    children_calls.borrow_mut().push_back(vec![child]);
    let runner = SequencedRunner::new(vec![
        agent_success(r#"[{"id": 10}]"#),                                  // plan_order
        agent_success(""),                                                 // implement child 10
        agent_success(""),                                                 // review child 10 (clean)
        agent_success(""),                                                 // instructions child 10
        agent_success("<featureReviewResult>CLEAN</featureReviewResult>"), // feature review
        agent_success(""),                                                 // feature instructions
    ]);
    // current_branch returns "feature/ticket-10" so child branch validation passes
    let (sc, _) = recording_source_control("feature/ticket-10");
    let (remote, pr_calls) = RecordingRemoteClient::new();
    let dir = make_prompts_dir();
    let config = run_config(&dir, 10, MergeStrategy::FeatureBranch, "main", DirtyBehavior::Warn, DirtyBehavior::Fail);
    let mut ctx = context_with(tracker, sc, remote, runner, config, &dir);

    complete_feature(99, &mut ctx, "main").unwrap();

    let calls = pr_calls.borrow();
    assert_eq!(calls.len(), 2, "expected 2 PRs: one per child, one for feature");
    assert!(calls.contains(&"feature/ticket-10".to_string()), "child PR missing");
    assert!(calls.contains(&"feature/ticket-99".to_string()), "feature PR missing");
}

// --- branches ---

#[test]
fn complete_ticket_per_ticket_creates_branch_from_base() {
    let (tracker, _, _, _, _) = FakeIssueTracker::new(make_issue(42, vec![]));
    let (runner, _) = FakeRunner::succeeds();
    let (sc, branches) = recording_source_control("feature/ticket-42");
    let dir = make_prompts_dir();
    let config = run_config(&dir, 10, MergeStrategy::PerTicket, "main", DirtyBehavior::Warn, DirtyBehavior::Fail);
    let mut ctx = context_with(tracker, sc, FakeRemoteClient, runner, config, &dir);

    complete_ticket(42, &mut ctx, "main").unwrap();

    let branches = branches.borrow();
    assert_eq!(branches.len(), 1);
    assert_eq!(branches[0], ("feature/ticket-42".to_string(), "main".to_string()));
}

#[test]
fn complete_ticket_fails_hard_when_branch_changes_after_implement() {
    let (tracker, _, _, _, _) = FakeIssueTracker::new(make_issue(42, vec![]));
    let (runner, _) = FakeRunner::succeeds();
    // current_branch() returns "main" — not the branch we created
    let (sc, _) = recording_source_control("main");
    let dir = make_prompts_dir();
    let config = run_config(&dir, 10, MergeStrategy::PerTicket, "main", DirtyBehavior::Warn, DirtyBehavior::Fail);
    let mut ctx = context_with(tracker, sc, FakeRemoteClient, runner, config, &dir);

    let result = complete_ticket(42, &mut ctx, "main");

    assert!(result.is_err());
    let msg = result.unwrap_err().message();
    assert!(msg.contains("branch mismatch"), "expected 'branch mismatch' in: {msg}");
    assert!(msg.contains("feature/ticket-42"), "expected branch name in: {msg}");
}

#[test]
fn complete_ticket_direct_creates_no_branch() {
    let (tracker, _, _, _, _) = FakeIssueTracker::new(make_issue(42, vec![]));
    let (runner, _) = FakeRunner::succeeds();
    // current_branch() returns "main" — would fail validation if validation ran
    let (sc, branches) = recording_source_control("main");
    let dir = make_prompts_dir();
    let config = run_config(&dir, 10, MergeStrategy::Direct, "main", DirtyBehavior::Warn, DirtyBehavior::Fail);
    let mut ctx = context_with(tracker, sc, FakeRemoteClient, runner, config, &dir);

    complete_ticket(42, &mut ctx, "main").unwrap(); // must not fail

    assert!(branches.borrow().is_empty(), "Direct should create no branches");
}

#[test]
fn complete_feature_feature_branch_creates_feature_branch_and_children_branch_from_it() {
    let child = make_issue(10, vec![]);
    let (tracker, _, _, _, children_calls) =
        FakeIssueTracker::with_issues(vec![make_issue(99, vec!["feature"]), child.clone()]);
    children_calls.borrow_mut().push_back(vec![child]);
    let dir = make_prompts_dir();
    let config = run_config(&dir, 10, MergeStrategy::FeatureBranch, "main", DirtyBehavior::Warn, DirtyBehavior::Fail);
    // current_branch returns "feature/ticket-10" so child validation passes
    let (sc, branches) = recording_source_control("feature/ticket-10");
    let mut ctx = context_with(tracker, sc, FakeRemoteClient, feature_runner(), config, &dir);

    complete_feature(99, &mut ctx, "main").unwrap();

    let branches = branches.borrow();
    // First branch: feature branch from main
    assert_eq!(branches[0], ("feature/ticket-99".to_string(), "main".to_string()));
    // Second branch: child ticket branches from the feature branch
    assert_eq!(branches[1], ("feature/ticket-10".to_string(), "feature/ticket-99".to_string()));
}

#[test]
fn complete_feature_per_ticket_creates_no_feature_branch_children_branch_from_base() {
    let child = make_issue(10, vec![]);
    let (tracker, _, _, _, children_calls) =
        FakeIssueTracker::with_issues(vec![make_issue(99, vec!["feature"]), child.clone()]);
    children_calls.borrow_mut().push_back(vec![child]);
    let dir = make_prompts_dir();
    let config = run_config(&dir, 10, MergeStrategy::PerTicket, "main", DirtyBehavior::Warn, DirtyBehavior::Fail);
    let (sc, branches) = recording_source_control("feature/ticket-10");
    let mut ctx = context_with(tracker, sc, FakeRemoteClient, feature_runner(), config, &dir);

    complete_feature(99, &mut ctx, "main").unwrap();

    let branches = branches.borrow();
    // Only child ticket branch — no feature-level branch — child branches from "main"
    assert_eq!(branches.len(), 1);
    assert_eq!(branches[0], ("feature/ticket-10".to_string(), "main".to_string()));
}

// --- dirty working tree ---

#[test]
fn no_commits_fail_returns_error() {
    let (tracker, _, _, _, _) = FakeIssueTracker::new(make_issue(1, vec![]));
    let (sc, _, _) = recording_source_control_full("main", true, false);
    let (mut ctx, _dir) =
        make_context_dirty(tracker, sequenced_clean_run(), sc, DirtyBehavior::Warn, DirtyBehavior::Fail);

    let result = complete_ticket(1, &mut ctx, "main");

    assert!(result.is_err());
    let msg = result.unwrap_err().message();
    assert!(msg.contains("no commits"), "expected 'no commits' in: {msg}");
}

#[test]
fn no_commits_warn_continues() {
    let (tracker, _, _, _, _) = FakeIssueTracker::new(make_issue(1, vec![]));
    let (sc, _, _) = recording_source_control_full("main", false, false);
    let (mut ctx, _dir) =
        make_context_dirty(tracker, sequenced_clean_run(), sc, DirtyBehavior::Warn, DirtyBehavior::Warn);

    let result = complete_ticket(1, &mut ctx, "main");

    assert!(result.is_ok());
}

#[test]
fn no_commits_commit_stages_and_commits_all() {
    let (tracker, _, _, _, _) = FakeIssueTracker::new(make_issue(1, vec![]));
    let (sc, commits, stages) = recording_source_control_full("main", false, false);
    let (mut ctx, _dir) =
        make_context_dirty(tracker, sequenced_clean_run(), sc, DirtyBehavior::Warn, DirtyBehavior::Commit);

    let result = complete_ticket(1, &mut ctx, "main");

    assert!(result.is_ok());
    assert_eq!(stages.borrow().len(), 1, "expected one stage call");
    assert!(stages.borrow()[0].is_none(), "expected stage-all (None paths)");
    assert_eq!(commits.borrow().len(), 1, "expected one commit");
    assert!(commits.borrow()[0].contains("issue #1"), "expected issue id in commit message");
}

#[test]
fn dirty_after_commit_fail_returns_error() {
    let (tracker, _, _, _, _) = FakeIssueTracker::new(make_issue(1, vec![]));
    let (sc, _, _) = recording_source_control_full("main", true, true);
    let (mut ctx, _dir) =
        make_context_dirty(tracker, sequenced_clean_run(), sc, DirtyBehavior::Fail, DirtyBehavior::Warn);

    let result = complete_ticket(1, &mut ctx, "main");

    assert!(result.is_err());
    let msg = result.unwrap_err().message();
    assert!(msg.contains("uncommitted"), "expected 'uncommitted' in: {msg}");
}

#[test]
fn dirty_after_commit_warn_continues() {
    let (tracker, _, _, _, _) = FakeIssueTracker::new(make_issue(1, vec![]));
    let (sc, _, _) = recording_source_control_full("main", true, true);
    let (mut ctx, _dir) =
        make_context_dirty(tracker, sequenced_clean_run(), sc, DirtyBehavior::Warn, DirtyBehavior::Warn);

    let result = complete_ticket(1, &mut ctx, "main");

    assert!(result.is_ok());
}

#[test]
fn dirty_after_commit_commit_stages_and_commits_remaining() {
    let (tracker, _, _, _, _) = FakeIssueTracker::new(make_issue(1, vec![]));
    let (sc, commits, stages) = recording_source_control_full("main", true, true);
    let (mut ctx, _dir) =
        make_context_dirty(tracker, sequenced_clean_run(), sc, DirtyBehavior::Commit, DirtyBehavior::Warn);

    let result = complete_ticket(1, &mut ctx, "main");

    assert!(result.is_ok());
    assert_eq!(stages.borrow().len(), 1);
    assert!(stages.borrow()[0].is_none());
    assert_eq!(commits.borrow().len(), 1);
    assert!(commits.borrow()[0].contains("issue #1"));
}

#[test]
fn clean_tree_with_commits_stages_nothing() {
    let (tracker, _, _, _, _) = FakeIssueTracker::new(make_issue(1, vec![]));
    let (sc, commits, stages) = recording_source_control_full("main", false, true);
    let (mut ctx, _dir) =
        make_context_dirty(tracker, sequenced_clean_run(), sc, DirtyBehavior::Commit, DirtyBehavior::Commit);

    complete_ticket(1, &mut ctx, "main").unwrap();

    assert!(stages.borrow().is_empty());
    assert!(commits.borrow().is_empty());
}

#[test]
fn complete_ticket_fails_with_the_error_of_the_failed_call() {
    let (tracker, claimed, _, _, _) = FakeIssueTracker::new(make_issue(7, vec![]));
    let (mut ctx, _dir) = make_context_sequenced(tracker, sequenced_clean_run(), 10);

    let err = complete_ticket(42, &mut ctx, "main").unwrap_err();

    assert_eq!(err.message(), "issue 42 not found in fake");
    assert!(claimed.borrow().is_empty());
    assert_eq!(ctx.iterations_used(), 0);
}
