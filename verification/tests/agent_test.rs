use intern::actions::agent::{
    build_feature_review_prompt, build_implement_prompt, build_plan_order_prompt,
    build_review_prompt, build_test_instructions_prompt, load_prompt, strip_prompt_docs,
    try_strip_prompt_docs,
};
use intern::actions::{feature_review, generate_test_instructions, plan_order, review};
use intern::context::Context;
use intern::github::types::GhIssue;
use intern::traits::{
    AgentOutput, AgentRunner, DirtyBehavior, Error, Event, EventSink, Issue, IssueTracker,
    IssueType, JsonDecoder, MergeStrategy, PromptLoader, RemoteClient, RunConfig, SourceControl,
};

struct StubIssueTracker;
impl IssueTracker for StubIssueTracker {
    fn get_issue(&self, id: u64) -> Result<Issue, Error> {
        Ok(Issue { id, title: "T".into(), body: "B".into(), labels: vec![] })
    }
    fn get_children(&self, _: u64) -> Result<Vec<Issue>, Error> {
        Ok(vec![])
    }
    fn get_issues_by_label(&self, _: &str) -> Result<Vec<Issue>, Error> {
        Ok(vec![])
    }
    fn claim_issue(&self, _: u64) -> Result<(), Error> {
        Ok(())
    }
    fn complete_issue(&self, _: u64) -> Result<(), Error> {
        Ok(())
    }
    fn skip_issue(&self, _: u64) -> Result<(), Error> {
        Ok(())
    }
    fn post_comment(&self, _: u64, _: &str) -> Result<(), Error> {
        Ok(())
    }
    fn create_child_issue(&self, _: u64, _: &str, _: &str) -> Result<Issue, Error> {
        Err(Error::Failed("not supported by the stub".to_string()))
    }
    fn issue_type(&self, _: u64) -> Result<IssueType, Error> {
        Ok(IssueType::Ticket)
    }
}

struct StubSourceControl;
impl SourceControl for StubSourceControl {
    fn create_branch(&self, _: &str, _: &str) -> Result<(), Error> {
        Ok(())
    }
    fn current_branch(&self) -> Result<String, Error> {
        Ok("main".into())
    }
    fn diff_from_base(&self, _: &str) -> Result<String, Error> {
        Ok("".into())
    }
    fn has_uncommitted_changes(&self) -> Result<bool, Error> {
        Ok(false)
    }
    fn has_commits_since(&self, _: &str) -> Result<bool, Error> {
        Ok(true)
    }
    fn stage(&self, _: Option<&[&str]>) -> Result<(), Error> {
        Ok(())
    }
    fn commit(&self, _: &str) -> Result<(), Error> {
        Ok(())
    }
}

struct StubRemoteClient;
impl RemoteClient for StubRemoteClient {
    fn create_pr(&self, _: &str, _: &str, _: &str) -> Result<String, Error> {
        Ok("".into())
    }
}

struct StubEventSink;
impl EventSink for StubEventSink {
    fn emit(&self, _: Event) {}
}

struct FixedRunner {
    stdout: String,
}
impl AgentRunner for FixedRunner {
    fn run(&self, _: &str, _: &RunConfig) -> Result<AgentOutput, Error> {
        Ok(AgentOutput { stdout: self.stdout.clone(), success: true })
    }
}

/// The files of a repository, by path, held in memory.
#[derive(Clone)]
struct Files(Vec<(String, String)>);

impl Files {
    fn with(mut self, path: &str, content: &str) -> Self {
        self.0.push((path.to_string(), content.to_string()));
        self
    }
}

impl PromptLoader for Files {
    fn load(&self, name: &str) -> Result<String, Error> {
        let path = format!(".intern/prompts/{name}.md");
        self.0
            .iter()
            .find(|(p, _)| *p == path)
            .map(|(_, c)| c.clone())
            .ok_or(Error::MissingPrompt(path))
    }
}

struct PlanJson;
impl JsonDecoder for PlanJson {
    fn decode_plan(&self, text: &str) -> Result<Vec<u64>, String> {
        let v: serde_json::Value = serde_json::from_str(text).map_err(|e| e.to_string())?;
        v.as_array()
            .ok_or("expected an array")?
            .iter()
            .map(|item| item["id"].as_u64().ok_or_else(|| "id missing".to_string()))
            .collect()
    }
    fn decode_issue(&self, _: &str) -> Result<GhIssue, String> {
        Err("not supported".to_string())
    }
    fn decode_issues(&self, _: &str) -> Result<Vec<GhIssue>, String> {
        Err("not supported".to_string())
    }
}

type TestContext = Context<
    StubIssueTracker,
    StubSourceControl,
    StubRemoteClient,
    FixedRunner,
    StubEventSink,
    Files,
    PlanJson,
>;

fn make_all_prompts_dir() -> Files {
    let mut dir = Files(vec![]);
    for name in &["implement", "review", "feature_review", "plan_order", "test_instructions"] {
        dir = dir.with(
            &format!(".intern/prompts/{name}.md"),
            "{{issue_id}} {{issue_title}} {{issue_body}} {{diff}} {{issues_list}} {{repo_context}}",
        );
    }
    dir
}

fn context_in(dir: &Files, stdout: &str) -> TestContext {
    Context::new(
        StubIssueTracker,
        StubSourceControl,
        StubRemoteClient,
        FixedRunner { stdout: stdout.to_string() },
        StubEventSink,
        dir.clone(),
        PlanJson,
        RunConfig {
            max_iterations: 10,
            merge_strategy: MergeStrategy::Direct,
            base_branch: "main".to_string(),
            use_worktree: false,
            on_dirty_after_commit: DirtyBehavior::Warn,
            on_dirty_no_commits: DirtyBehavior::Fail,
            dry_run: false,
            repo_context: String::new(),
            work_directory: ".".to_string(),
        },
    )
}

fn test_context(stdout: &str) -> (TestContext, Files) {
    let dir = make_all_prompts_dir();
    let ctx = context_in(&dir, stdout);
    (ctx, dir)
}

fn make_prompt_dir_with(name: &str, content: &str) -> Files {
    Files(vec![]).with(&format!(".intern/prompts/{name}.md"), content)
}

fn load_from(dir: &Files, name: &str) -> Result<String, Error> {
    let mut ctx = context_in(dir, "");
    load_prompt(&mut ctx, name)
}

fn issue(id: u64, title: &str, body: &str) -> Issue {
    Issue { id, title: title.into(), body: body.into(), labels: vec![] }
}

#[test]
fn actions_feature_review_returns_true_when_agent_outputs_in_scope_findings() {
    let (mut ctx, _dir) = test_context("Analysis...\n<featureReviewResult>IN_SCOPE_FINDINGS</featureReviewResult>");
    assert!(feature_review(1, &mut ctx).unwrap());
}

#[test]
fn actions_feature_review_returns_false_when_agent_outputs_clean() {
    let (mut ctx, _dir) = test_context("Looks good.\n<featureReviewResult>CLEAN</featureReviewResult>");
    assert!(!feature_review(1, &mut ctx).unwrap());
}

#[test]
fn actions_feature_review_does_not_false_positive_on_untagged_in_scope_findings() {
    let (mut ctx, _dir) = test_context("I found IN_SCOPE_FINDINGS in the codebase.");
    assert!(!feature_review(1, &mut ctx).unwrap());
}

#[test]
fn actions_plan_order_parses_agent_json_into_ordered_ids() {
    let issues = vec![issue(1, "First", ""), issue(2, "Second", "")];
    let (mut ctx, _dir) = test_context(r#"[{"id": 2}, {"id": 1}]"#);
    let order = plan_order(&issues, &mut ctx).unwrap();
    assert_eq!(order, vec![2, 1]);
}

#[test]
fn actions_plan_order_returns_error_for_invalid_json() {
    let issues = vec![issue(1, "T", "")];
    let (mut ctx, _dir) = test_context("I think issue 2 should go first, then issue 1.");
    assert!(plan_order(&issues, &mut ctx).is_err());
}

#[test]
fn actions_review_returns_true_when_agent_outputs_findings() {
    let (mut ctx, _dir) = test_context("Some analysis...\n<reviewResult>FINDINGS</reviewResult>");
    assert!(review(1, &mut ctx).unwrap());
}

#[test]
fn actions_review_returns_false_when_agent_outputs_clean() {
    let (mut ctx, _dir) = test_context("Looks good.\n<reviewResult>CLEAN</reviewResult>");
    assert!(!review(1, &mut ctx).unwrap());
}

#[test]
fn actions_review_does_not_false_positive_on_untagged_findings() {
    let (mut ctx, _dir) = test_context("I found several FINDINGS in the analysis.");
    assert!(!review(1, &mut ctx).unwrap());
}

#[test]
fn actions_load_prompt_uses_override_file_when_present() {
    let dir = make_prompt_dir_with("implement", "custom prompt");
    let result = load_from(&dir, "implement").unwrap();
    assert_eq!(result, "custom prompt");
}

#[test]
fn actions_load_prompt_errors_when_file_not_found() {
    let dir = Files(vec![]);
    let result = load_from(&dir, "implement");
    assert!(result.is_err());
}

#[test]
fn actions_implement_prompt_includes_repo_context() {
    let template = "{{repo_context}}\n{{issue_id}}";
    let prompt = build_implement_prompt(template, &issue(1, "T", "B"), "use snake_case everywhere");
    assert!(prompt.contains("use snake_case everywhere"));
}

#[test]
fn actions_implement_prompt_with_empty_repo_context_does_not_panic() {
    let template = "{{repo_context}}\n{{issue_id}}";
    let prompt = build_implement_prompt(template, &issue(1, "T", "B"), "");
    assert!(!prompt.is_empty());
}

#[test]
fn agent_feature_review_returns_true_when_agent_outputs_in_scope_findings() {
    let (mut ctx, _dir) = test_context("Analysis...\n<featureReviewResult>IN_SCOPE_FINDINGS</featureReviewResult>");
    assert!(feature_review(1, &mut ctx).unwrap());
}

#[test]
fn agent_feature_review_returns_false_when_agent_outputs_clean() {
    let (mut ctx, _dir) = test_context("Looks good.\n<featureReviewResult>CLEAN</featureReviewResult>");
    assert!(!feature_review(1, &mut ctx).unwrap());
}

#[test]
fn agent_feature_review_does_not_false_positive_on_untagged_in_scope_findings() {
    let (mut ctx, _dir) = test_context("I found IN_SCOPE_FINDINGS in the codebase.");
    assert!(!feature_review(1, &mut ctx).unwrap());
}

#[test]
fn agent_plan_order_parses_agent_json_into_ordered_ids() {
    let issues = vec![issue(1, "First", ""), issue(2, "Second", "")];
    let (mut ctx, _dir) = test_context(r#"[{"id": 2}, {"id": 1}]"#);
    let order = plan_order(&issues, &mut ctx).unwrap();
    assert_eq!(order, vec![2, 1]);
}

#[test]
fn agent_plan_order_returns_error_for_invalid_json() {
    let issues = vec![issue(1, "T", "")];
    let (mut ctx, _dir) = test_context("I think issue 2 should go first, then issue 1.");
    assert!(plan_order(&issues, &mut ctx).is_err());
}

#[test]
fn agent_review_returns_true_when_agent_outputs_findings() {
    let (mut ctx, _dir) = test_context("Some analysis...\n<reviewResult>FINDINGS</reviewResult>");
    assert!(review(1, &mut ctx).unwrap());
}

#[test]
fn agent_review_returns_false_when_agent_outputs_clean() {
    let (mut ctx, _dir) = test_context("Looks good.\n<reviewResult>CLEAN</reviewResult>");
    assert!(!review(1, &mut ctx).unwrap());
}

#[test]
fn agent_review_does_not_false_positive_on_untagged_findings() {
    let (mut ctx, _dir) = test_context("I found several FINDINGS in the analysis.");
    assert!(!review(1, &mut ctx).unwrap());
}

#[test]
fn agent_load_prompt_uses_override_file_when_present() {
    let dir = make_prompt_dir_with("implement", "custom prompt");
    let result = load_from(&dir, "implement").unwrap();
    assert_eq!(result, "custom prompt");
}

#[test]
fn agent_load_prompt_errors_when_file_not_found() {
    let dir = Files(vec![]);
    let result = load_from(&dir, "implement");
    assert!(result.is_err());
}

#[test]
fn agent_implement_prompt_includes_repo_context() {
    let template = "{{repo_context}}\n{{issue_id}}";
    let prompt = build_implement_prompt(template, &issue(1, "T", "B"), "use snake_case everywhere");
    assert!(prompt.contains("use snake_case everywhere"));
}

#[test]
fn agent_implement_prompt_with_empty_repo_context_does_not_panic() {
    let template = "{{repo_context}}\n{{issue_id}}";
    let prompt = build_implement_prompt(template, &issue(1, "T", "B"), "");
    assert!(!prompt.is_empty());
}

#[test]
fn load_prompt_strips_strip_before_prompting_sections() {
    let dir = make_prompt_dir_with(
        "implement",
        "\
<strip-before-prompting>
# Available variables
# {{issue_id}} — the issue number
</strip-before-prompting>

The actual prompt content.",
    );
    let result = load_from(&dir, "implement").unwrap();
    assert!(!result.contains("<strip-before-prompting>"));
    assert!(!result.contains("Available variables"));
    assert!(result.contains("The actual prompt content."));
}

#[test]
fn load_prompt_applies_stripping() {
    let dir = make_prompt_dir_with(
        "implement",
        "<strip-before-prompting>\n# docs\n</strip-before-prompting>\n\nContent.",
    );
    let result = load_from(&dir, "implement").unwrap();
    assert!(!result.contains("# docs"));
    assert!(result.contains("Content."));
}

#[test]
fn load_prompt_names_the_missing_file() {
    let dir = Files(vec![]);
    let err = load_from(&dir, "review").unwrap_err();
    let msg = err.message();
    assert!(msg.starts_with("missing prompt file: "));
    assert!(msg.contains("review.md"));
    assert!(msg.ends_with(" — run 'intern init' to scaffold defaults"));
}

#[test]
fn load_prompt_rejects_a_section_closed_before_it_opens() {
    let dir = make_prompt_dir_with(
        "implement",
        "</strip-before-prompting>\nA\n<strip-before-prompting>\nB",
    );
    let err = load_from(&dir, "implement").unwrap_err();
    assert!(matches!(err, Error::MalformedPrompt(ref n) if n == "implement"));
    assert_eq!(
        err.message(),
        "prompt template 'implement' closes a <strip-before-prompting> section before opening one"
    );
}

#[test]
fn strip_prompt_docs_removes_tagged_section() {
    let input = "<strip-before-prompting>\n# comment\n</strip-before-prompting>\n\nContent.";
    let result = strip_prompt_docs(input);
    assert!(!result.contains("<strip-before-prompting>"));
    assert!(!result.contains("# comment"));
    assert!(result.contains("Content."));
}

#[test]
fn strip_prompt_docs_handles_multiple_sections() {
    let input = "<strip-before-prompting>\n# first\n</strip-before-prompting>\n\nA.\n\n<strip-before-prompting>\n# second\n</strip-before-prompting>\n\nB.";
    let result = strip_prompt_docs(input);
    assert!(!result.contains("<strip-before-prompting>"));
    assert!(!result.contains("# first"));
    assert!(!result.contains("# second"));
    assert!(result.contains("A."));
    assert!(result.contains("B."));
}

#[test]
fn strip_prompt_docs_gives_exact_remainder() {
    let input = "<strip-before-prompting>x</strip-before-prompting>  A<strip-before-prompting>y</strip-before-prompting>B ";
    assert_eq!(strip_prompt_docs(input), "AB ");
}

#[test]
fn strip_prompt_docs_keeps_an_unclosed_section() {
    let input = "  intro <strip-before-prompting> never closed";
    assert_eq!(strip_prompt_docs(input), "intro <strip-before-prompting> never closed");
}

#[test]
fn try_strip_prompt_docs_refuses_a_close_before_an_open() {
    assert_eq!(try_strip_prompt_docs("</strip-before-prompting> <strip-before-prompting>"), None);
    assert_eq!(try_strip_prompt_docs("plain"), Some("plain".to_string()));
}

#[test]
fn review_prompt_fills_every_placeholder() {
    let template = "#{{issue_id}} {{issue_title}}: {{issue_body}} [{{diff}}] {{issue_id}}";
    let prompt = build_review_prompt(template, &issue(7, "Title", "Body"), "+x");
    assert_eq!(prompt, "#7 Title: Body [+x] 7");
}

#[test]
fn feature_review_and_instructions_prompts_fill_the_diff() {
    let template = "{{issue_id}}|{{diff}}|{{repo_context}}";
    let i = issue(12, "T", "B");
    assert_eq!(build_feature_review_prompt(template, &i, "d"), "12|d|{{repo_context}}");
    assert_eq!(build_test_instructions_prompt(template, &i, "d"), "12|d|{{repo_context}}");
}

#[test]
fn plan_order_prompt_lists_every_issue() {
    let issues = vec![issue(1, "First", "one"), issue(2, "Second", "two")];
    let prompt = build_plan_order_prompt("Items:\n{{issues_list}}", &issues);
    assert_eq!(prompt, "Items:\n### Issue #1: First\none\n\n### Issue #2: Second\ntwo");
}

#[test]
fn plan_order_uses_one_agent_invocation() {
    let issues = vec![issue(1, "First", "")];
    let (mut ctx, _dir) = test_context("  [{\"id\": 1}]\n");
    assert_eq!(plan_order(&issues, &mut ctx).unwrap(), vec![1]);
    assert_eq!(ctx.iterations_used(), 1);
}

#[test]
fn generate_test_instructions_invokes_the_agent_once() {
    let (mut ctx, _dir) = test_context("steps");
    generate_test_instructions(3, &mut ctx).unwrap();
    assert_eq!(ctx.iterations_used(), 1);
}

const IMPLEMENT_TEMPLATE: &str = r#"<strip-before-prompting>
# Available variables
# {{issue_id}}     — the GitHub issue number
# {{issue_title}}  — the issue title
# {{issue_body}}   — the full issue body / acceptance criteria
# {{repo_context}} — contents of your context_file
#
# Note on custom prompts: if you override this file, you take ownership of
# the commit instructions below. The orchestrator validates that commits were
# made after your run completes — if your custom prompt omits commit
# instructions, that post-implement check will fire.
# Do NOT include branch creation instructions — the orchestrator creates the
# branch before invoking the agent.
</strip-before-prompting>

{{repo_context}}

## Task: Implement Issue #{{issue_id}}

**{{issue_title}}**

{{issue_body}}

### Instructions

Before writing any code:
1. Explore the codebase to understand the existing structure and patterns relevant to this issue
2. Identify where changes need to be made and what existing code they interact with

When implementing:
- Follow the patterns and conventions you observe in the existing code
- Keep changes focused on what the issue requires — do not refactor unrelated code
- If the issue requires tests, match the style and location of existing tests
- Commit your work incrementally as you go — make a logical commit each time you complete a meaningful unit of work (e.g. after adding a new function, after making tests pass, after completing a distinct step)

When complete:
- Ensure all changes are committed — stage and commit anything not yet committed, referencing issue #{{issue_id}} in the message
"#;

const REVIEW_TEMPLATE: &str = r#"{{repo_context}}

## Review: Issue #{{issue_id}}

**{{issue_title}}**

### Acceptance criteria
{{issue_body}}

### Changes made
```diff
{{diff}}
```

Review the changes against the acceptance criteria. Check for:
- Gaps: does the implementation fully satisfy every acceptance criterion?
- Correctness: are there bugs, edge cases, or error paths not handled?
- Consistency: do the changes follow the patterns established in the rest of the codebase?

Do not flag pre-existing issues unrelated to this change.

If there are issues to address, create a single GitHub issue consolidating all findings as a child of issue #{{issue_id}}, then output on the last line:
<reviewResult>FINDINGS</reviewResult>

If the implementation is satisfactory, output on the last line:
<reviewResult>CLEAN</reviewResult>
"#;

const FEATURE_REVIEW_TEMPLATE: &str = r#"{{repo_context}}

## Feature Review: Issue #{{issue_id}}

**{{issue_title}}**

### Acceptance criteria
{{issue_body}}

### Aggregate changes
```diff
{{diff}}
```

Evaluate the implementation holistically. Check for:
- Coherence: no duplicate code paths, shared patterns are consistent across all tickets
- Completeness: the sum of all changes delivers what the feature described — flag any gaps
- Cross-cutting concerns: integration tests that span multiple tickets, refactor opportunities that only become visible at this scale

**For findings directly caused by this feature** (bugs, gaps, missing tests, refactor candidates within this scope):
Create a single child issue on #{{issue_id}} consolidating all in-scope findings.

**For observations not caused by this feature** (broader architectural concerns, unrelated tech debt surfaced during review):
Create a top-level issue labeled `hitl` with a reference to feature #{{issue_id}}.

After creating any issues, output your result on the last line:
- If there are in-scope findings: <featureReviewResult>IN_SCOPE_FINDINGS</featureReviewResult>
- If the feature is complete and coherent: <featureReviewResult>CLEAN</featureReviewResult>
"#;

const PLAN_ORDER_TEMPLATE: &str = r#"<strip-before-prompting>
# Available variables
# {{issues_list}} — formatted list of all issues to be ordered
</strip-before-prompting>

You are planning the execution order for a set of work items.

## Work items
{{issues_list}}

Analyze the work items and determine the optimal execution order. Consider:
- Explicit dependencies (one item references another as a predecessor)
- Implicit dependencies (one item must logically precede another to avoid rework)
- Risk: items that establish shared patterns should come before items that use them

Respond with ONLY a JSON array of objects in the order they should be executed. No other text.

Each object must have an `id` field containing the issue number. Additional fields may be added in the future.

Example: [{"id": 3}, {"id": 1}, {"id": 2}]
"#;

const TEST_INSTRUCTIONS_TEMPLATE: &str = r#"<strip-before-prompting>
# Available variables
# {{issue_id}}     — the GitHub issue number
# {{issue_title}}  — the issue title
# {{issue_body}}   — the full issue body / acceptance criteria
# {{diff}}         — the git diff since the base branch
# {{repo_context}} — contents of your context_file
</strip-before-prompting>

{{repo_context}}

## Test Instructions: Issue #{{issue_id}}

**{{issue_title}}**

### Acceptance criteria
{{issue_body}}

### Changes made
```diff
{{diff}}
```

Write clear, step-by-step instructions for a human to manually verify that the implementation is correct. Focus on what a person checking the work would need to do to confirm each acceptance criterion is met. Note any side effects or indirect changes visible in the diff that should also be verified.

Post these instructions as a comment on issue #{{issue_id}}.
"#;

#[test]
fn scaffold_implement_loads_and_strips_cleanly() {
    let dir = make_prompt_dir_with("implement", IMPLEMENT_TEMPLATE);
    let result = load_from(&dir, "implement").unwrap();
    assert!(!result.contains("<strip-before-prompting>"));
    assert!(!result.contains("Available variables"));
    assert!(result.contains("{{issue_id}}"));
}

#[test]
fn scaffold_review_loads_and_strips_cleanly() {
    let dir = make_prompt_dir_with("review", REVIEW_TEMPLATE);
    let result = load_from(&dir, "review").unwrap();
    assert!(!result.contains("<strip-before-prompting>"));
    assert!(!result.contains("Available variables"));
    assert!(result.contains("{{diff}}"));
}

#[test]
fn scaffold_feature_review_loads_and_strips_cleanly() {
    let dir = make_prompt_dir_with("feature_review", FEATURE_REVIEW_TEMPLATE);
    let result = load_from(&dir, "feature_review").unwrap();
    assert!(!result.contains("<strip-before-prompting>"));
    assert!(!result.contains("Available variables"));
    assert!(result.contains("{{diff}}"));
}

#[test]
fn scaffold_plan_order_loads_and_strips_cleanly() {
    let dir = make_prompt_dir_with("plan_order", PLAN_ORDER_TEMPLATE);
    let result = load_from(&dir, "plan_order").unwrap();
    assert!(!result.contains("<strip-before-prompting>"));
    assert!(!result.contains("Available variables"));
    assert!(result.contains("{{issues_list}}"));
}

#[test]
fn scaffold_test_instructions_loads_and_strips_cleanly() {
    let dir = make_prompt_dir_with("test_instructions", TEST_INSTRUCTIONS_TEMPLATE);
    let result = load_from(&dir, "test_instructions").unwrap();
    assert!(!result.contains("<strip-before-prompting>"));
    assert!(!result.contains("Available variables"));
    assert!(result.contains("{{issue_id}}"));
}
