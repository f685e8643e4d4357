//! `intern init`: the files it writes into a repository.
use vstd::prelude::*;
use crate::wizard::{config_toml, generate_config_toml, WizardOutput, WizardOutputView};

verus! {

pub const PROMPT_IMPLEMENT: &'static str = r#"<strip-before-prompting>
# Available variables
# {{issue_id}}     — the GitHub issue number
# {{issue_title}}  — the issue title
# {{issue_body}}   — the full issue body / acceptance criteria
# {{repo_context}} — contents of your context_file (e.g. AGENTS.md)
#
# Note on custom prompts: if you override this file, you take ownership of
# the commit instructions below. The orchestrator validates that commits were
# made after your run completes — if your custom prompt omits commit
# instructions, that post-implement check will fire.
# Do NOT include branch creation instructions — the orchestrator creates the
# branch before invoking the agent.
</strip-before-prompting>

{{repo_context}}

## Task: Implement Issue #{{issue_id}}

**{{issue_title}}**

{{issue_body}}

### Instructions

Before writing any code:
1. Explore the codebase to understand the existing structure and patterns relevant to this issue
2. Identify where changes need to be made and what existing code they interact with

When implementing:
- Follow the patterns and conventions you observe in the existing code
- Keep changes focused on what the issue requires — do not refactor unrelated code
- If the issue requires tests, match the style and location of existing tests
- Commit your work incrementally as you go — make a logical commit each time you complete a meaningful unit of work (e.g. after adding a new function, after making tests pass, after completing a distinct step)

When complete:
- Ensure all changes are committed — stage and commit anything not yet committed, referencing issue #{{issue_id}} in the message
"#;

pub const PROMPT_REVIEW: &'static str = r#"{{repo_context}}

## Review: Issue #{{issue_id}}

**{{issue_title}}**

### Acceptance criteria
{{issue_body}}

### Changes made
```diff
{{diff}}
```

Review the changes against the acceptance criteria. Check for:
- Gaps: does the implementation fully satisfy every acceptance criterion?
- Correctness: are there bugs, edge cases, or error paths not handled?
- Consistency: do the changes follow the patterns established in the rest of the codebase?

Do not flag pre-existing issues unrelated to this change.

If there are issues to address, create a single GitHub issue consolidating all findings as a child of issue #{{issue_id}}, then output on the last line:
<reviewResult>FINDINGS</reviewResult>

If the implementation is satisfactory, output on the last line:
<reviewResult>CLEAN</reviewResult>
"#;

pub const PROMPT_FEATURE_REVIEW: &'static str = r#"{{repo_context}}

## Feature Review: Issue #{{issue_id}}

**{{issue_title}}**

### Acceptance criteria
{{issue_body}}

### Aggregate changes
```diff
{{diff}}
```

Evaluate the implementation holistically. Check for:
- Coherence: no duplicate code paths, shared patterns are consistent across all tickets
- Completeness: the sum of all changes delivers what the feature described — flag any gaps
- Cross-cutting concerns: integration tests that span multiple tickets, refactor opportunities that only become visible at this scale

**For findings directly caused by this feature** (bugs, gaps, missing tests, refactor candidates within this scope):
Create a single child issue on #{{issue_id}} consolidating all in-scope findings.

**For observations not caused by this feature** (broader architectural concerns, unrelated tech debt surfaced during review):
Create a top-level issue labeled `hitl` with a reference to feature #{{issue_id}}.

After creating any issues, output your result on the last line:
- If there are in-scope findings: <featureReviewResult>IN_SCOPE_FINDINGS</featureReviewResult>
- If the feature is complete and coherent: <featureReviewResult>CLEAN</featureReviewResult>
"#;

pub const PROMPT_PLAN_ORDER: &'static str = r#"<strip-before-prompting>
# Available variables
# {{issues_list}} — formatted list of all issues to be ordered
</strip-before-prompting>

You are planning the execution order for a set of work items.

## Work items
{{issues_list}}

Analyze the work items and determine the optimal execution order. Consider:
- Explicit dependencies (one item references another as a predecessor)
- Implicit dependencies (one item must logically precede another to avoid rework)
- Risk: items that establish shared patterns should come before items that use them

Respond with ONLY a JSON array of objects in the order they should be executed. No other text.

Each object must have an `id` field containing the issue number. Additional fields may be added in the future.

Example: [{"id": 3}, {"id": 1}, {"id": 2}]
"#;

pub const PROMPT_TEST_INSTRUCTIONS: &'static str = r#"<strip-before-prompting>
# Available variables
# {{issue_id}}     — the GitHub issue number
# {{issue_title}}  — the issue title
# {{issue_body}}   — the full issue body / acceptance criteria
# {{diff}}         — the git diff since the base branch
# {{repo_context}} — contents of your context_file (e.g. AGENTS.md)
</strip-before-prompting>

{{repo_context}}

## Test Instructions: Issue #{{issue_id}}

**{{issue_title}}**

### Acceptance criteria
{{issue_body}}

### Changes made
```diff
{{diff}}
```

Write clear, step-by-step instructions for a human to manually verify that the implementation is correct. Focus on what a person checking the work would need to do to confirm each acceptance criterion is met. Note any side effects or indirect changes visible in the diff that should also be verified.

Post these instructions as a comment on issue #{{issue_id}}.
"#;

/// The files `intern init` writes, by their paths relative to the
/// repository, in the order it writes them: the configuration file for the
/// settings `w`, then the default prompt templates.
pub open spec fn scaffold_view(w: WizardOutputView) -> Seq<(Seq<char>, Seq<char>)> {
    seq![
        (".intern/config.toml"@, config_toml(w)),
        (".intern/prompts/implement.md"@, PROMPT_IMPLEMENT@),
        (".intern/prompts/review.md"@, PROMPT_REVIEW@),
        (".intern/prompts/feature_review.md"@, PROMPT_FEATURE_REVIEW@),
        (".intern/prompts/plan_order.md"@, PROMPT_PLAN_ORDER@),
        (".intern/prompts/test_instructions.md"@, PROMPT_TEST_INSTRUCTIONS@),
    ]
}

/// The files `intern init` writes for the wizard's settings, with their
/// contents.
pub fn scaffold_files(wizard: &WizardOutput) -> (r: Vec<(String, String)>)
    ensures
        r@.len() == scaffold_view(wizard@).len(),
        forall|i: int|
            0 <= i < r@.len() ==> (#[trigger] r@[i].0@, r@[i].1@) == scaffold_view(wizard@)[i],
{
    let mut r: Vec<(String, String)> = Vec::new();
    r.push((".intern/config.toml".to_string(), generate_config_toml(wizard)));
    r.push((".intern/prompts/implement.md".to_string(), PROMPT_IMPLEMENT.to_string()));
    r.push((".intern/prompts/review.md".to_string(), PROMPT_REVIEW.to_string()));
    r.push((".intern/prompts/feature_review.md".to_string(), PROMPT_FEATURE_REVIEW.to_string()));
    r.push((".intern/prompts/plan_order.md".to_string(), PROMPT_PLAN_ORDER.to_string()));
    r.push((".intern/prompts/test_instructions.md".to_string(), PROMPT_TEST_INSTRUCTIONS.to_string()));
    r
}

} // verus!
