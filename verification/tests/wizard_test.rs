use std::cell::RefCell;
use std::collections::VecDeque;

use intern::behaviors::{
    detect_wizard_hints, generate_config_toml, interactive_config_wizard, Interview, UserInteractor,
    WizardHints, WizardOutput,
};
use intern::traits::{AgentKind, CommandRunner, Error, IssueTrackerKind, MergeStrategy, SourceControlKind};
use intern::wizard::{choice_list, source_control_default};

// --- Stub interactor ---

struct StubInteractor {
    text_responses: RefCell<VecDeque<String>>,
    choice_responses: RefCell<VecDeque<usize>>,
    confirm_responses: RefCell<VecDeque<bool>>,
    questions: RefCell<Vec<String>>,
}

impl StubInteractor {
    fn new() -> Self {
        Self {
            text_responses: RefCell::new(VecDeque::new()),
            choice_responses: RefCell::new(VecDeque::new()),
            confirm_responses: RefCell::new(VecDeque::new()),
            questions: RefCell::new(vec![]),
        }
    }

    fn with_text(self, response: &str) -> Self {
        self.text_responses.borrow_mut().push_back(response.to_string());
        self
    }

    fn with_choice(self, index: usize) -> Self {
        self.choice_responses.borrow_mut().push_back(index);
        self
    }

    fn with_confirm(self, response: bool) -> Self {
        self.confirm_responses.borrow_mut().push_back(response);
        self
    }
}

impl UserInteractor for StubInteractor {
    fn prompt_text(&self, question: &str, default: Option<&str>) -> Result<String, Error> {
        self.questions.borrow_mut().push(question.to_string());
        Ok(self
            .text_responses
            .borrow_mut()
            .pop_front()
            .or_else(|| default.map(|s| s.to_string()))
            .expect("StubInteractor: no text response queued"))
    }

    fn prompt_choice(&self, question: &str, choices: &[String], default_idx: Option<usize>) -> Result<usize, Error> {
        self.questions.borrow_mut().push(question.to_string());
        let idx = self
            .choice_responses
            .borrow_mut()
            .pop_front()
            .or(default_idx)
            .expect("StubInteractor: no choice response queued and no default provided");
        assert!(idx < choices.len(), "StubInteractor: choice index out of range");
        Ok(idx)
    }

    fn prompt_confirm(&self, question: &str, default: bool) -> Result<bool, Error> {
        self.questions.borrow_mut().push(question.to_string());
        Ok(self.confirm_responses.borrow_mut().pop_front().unwrap_or(default))
    }
}

struct AlwaysPicks(usize);
impl UserInteractor for AlwaysPicks {
    fn prompt_text(&self, _: &str, _: Option<&str>) -> Result<String, Error> {
        Ok(String::new())
    }
    fn prompt_choice(&self, _: &str, _: &[String], _: Option<usize>) -> Result<usize, Error> {
        Ok(self.0)
    }
    fn prompt_confirm(&self, _: &str, _: bool) -> Result<bool, Error> {
        Ok(false)
    }
}

struct Cancels;
impl UserInteractor for Cancels {
    fn prompt_text(&self, _: &str, _: Option<&str>) -> Result<String, Error> {
        Err(Error::Failed("cancelled".to_string()))
    }
    fn prompt_choice(&self, _: &str, _: &[String], _: Option<usize>) -> Result<usize, Error> {
        Ok(0)
    }
    fn prompt_confirm(&self, _: &str, _: bool) -> Result<bool, Error> {
        Ok(false)
    }
}

fn run_wizard<U: UserInteractor>(interactor: U, hints: &WizardHints) -> Result<WizardOutput, Error> {
    let mut interview = Interview::new(interactor);
    interactive_config_wizard(&mut interview, hints)
}

// --- Sequenced command runner ---

struct SequencedCommandRunner {
    responses: RefCell<VecDeque<Result<String, Error>>>,
}

impl SequencedCommandRunner {
    fn new() -> Self {
        Self { responses: RefCell::new(VecDeque::new()) }
    }
    fn then_ok(self, output: &str) -> Self {
        self.responses.borrow_mut().push_back(Ok(output.to_string()));
        self
    }
    fn then_err(self, msg: &str) -> Self {
        self.responses.borrow_mut().push_back(Err(Error::Failed(msg.to_string())));
        self
    }
}

impl CommandRunner for SequencedCommandRunner {
    fn run(&self, _program: &str, _args: &[&str]) -> Result<String, Error> {
        self.responses
            .borrow_mut()
            .pop_front()
            .unwrap_or_else(|| Err(Error::Failed("SequencedCommandRunner: no more responses".to_string())))
    }
}

fn no_gh_runner() -> SequencedCommandRunner {
    SequencedCommandRunner::new().then_err("command not found: gh")
}

/// The hints found in a repository that holds the entries `present`.
fn hints_in(present: &[&str], runner: &SequencedCommandRunner) -> WizardHints {
    let present: Vec<String> = present.iter().map(|s| s.to_string()).collect();
    detect_wizard_hints(move |name: &str| present.iter().any(|p| p == name), runner)
}

// --- Hints ---

#[test]
fn detect_wizard_hints_populates_repo_when_gh_available() {
    let runner = SequencedCommandRunner::new()
        .then_ok("2.0.0\n") // gh --version
        .then_ok("acme/widgets\n"); // gh repo view

    let hints = hints_in(&[], &runner);
    assert_eq!(hints.repo, Some("acme/widgets".to_string()));
}

#[test]
fn detect_wizard_hints_repo_is_none_when_gh_not_available() {
    let runner = SequencedCommandRunner::new().then_err("command not found: gh");

    let hints = hints_in(&[], &runner);
    assert_eq!(hints.repo, None);
}

#[test]
fn detect_wizard_hints_finds_agents_md_as_context_file() {
    let hints = hints_in(&["AGENTS.md"], &no_gh_runner());
    assert_eq!(hints.context_file, Some("AGENTS.md".to_string()));
}

#[test]
fn detect_wizard_hints_context_file_is_none_when_no_known_files() {
    let hints = hints_in(&["README.md"], &no_gh_runner());
    assert_eq!(hints.context_file, None);
}

#[test]
fn detect_wizard_hints_detects_git_source_control_when_dot_git_exists() {
    let hints = hints_in(&[".git"], &no_gh_runner());
    assert_eq!(hints.source_control_kind, Some(SourceControlKind::Git));
}

#[test]
fn detect_wizard_hints_source_control_is_none_when_no_dot_git() {
    let hints = hints_in(&["README.md"], &no_gh_runner());
    assert_eq!(hints.source_control_kind, None);
}

// --- The interview ---

#[test]
fn wizard_uses_hint_repo_as_default() {
    let hints = WizardHints { repo: Some("detected/repo".to_string()), context_file: None, source_control_kind: None };
    // No text queued — wizard should fall back to the hint default
    let interactor = StubInteractor::new()
        .with_choice(0) // issue tracker: github
        .with_choice(0) // source control: git
        .with_choice(0) // agent: local
        .with_confirm(false) // settings file: no
        .with_confirm(false) // context file: no
        .with_choice(0) // merge strategy: direct
        .with_confirm(true); // summary

    let output = run_wizard(interactor, &hints).unwrap();
    assert_eq!(output.repo, "detected/repo");
}

#[test]
fn wizard_uses_hint_source_control_kind_as_default() {
    let hints = WizardHints {
        repo: None,
        context_file: None,
        source_control_kind: Some(SourceControlKind::Unversioned),
    };
    let interactor = StubInteractor::new()
        .with_choice(0) // issue tracker: github
        .with_text("owner/repo") // repo
        .with_choice(1) // source control: none (index 1 — matches hinted default)
        .with_choice(0) // agent: local
        .with_confirm(false) // settings file: no
        .with_confirm(false) // context file: no
        .with_choice(0) // merge strategy: direct
        .with_confirm(true); // summary

    let output = run_wizard(interactor, &hints).unwrap();
    assert_eq!(output.source_control_kind, SourceControlKind::Unversioned);
}

#[test]
fn wizard_uses_hint_context_file_as_default_when_user_confirms() {
    let hints = WizardHints { repo: None, context_file: Some("AGENTS.md".to_string()), source_control_kind: None };
    let interactor = StubInteractor::new()
        .with_choice(0) // issue tracker: github
        .with_text("owner/repo") // repo
        .with_choice(0) // source control: git
        .with_choice(0) // agent: local
        .with_confirm(false) // settings file: no
        .with_confirm(true) // context file: yes
        // no text queued for context file path — hint default used
        .with_choice(0) // merge strategy: direct
        .with_confirm(true); // summary

    let output = run_wizard(interactor, &hints).unwrap();
    assert_eq!(output.context_file, Some("AGENTS.md".to_string()));
}

#[test]
fn wizard_captures_source_control_kind() {
    let interactor = StubInteractor::new()
        .with_choice(0) // issue tracker: github
        .with_text("owner/repo") // repo
        .with_choice(1) // source control: none (index 1)
        .with_choice(0) // agent: local
        .with_confirm(false) // settings file: no
        .with_confirm(false) // context file: no
        .with_choice(0) // merge strategy: direct
        .with_confirm(true); // summary

    let output = run_wizard(interactor, &WizardHints::none()).unwrap();
    assert_eq!(output.source_control_kind, SourceControlKind::Unversioned);
}

#[test]
fn wizard_captures_repo_from_user_input() {
    let interactor = StubInteractor::new()
        .with_choice(0) // issue tracker kind: github
        .with_text("myorg/myrepo") // repo slug
        .with_choice(0) // source control: git
        .with_choice(0) // agent kind: local
        .with_confirm(false) // settings file: no
        .with_confirm(false) // context file: no
        .with_choice(0) // merge strategy: direct
        .with_confirm(true); // summary: looks good

    let output = run_wizard(interactor, &WizardHints::none()).unwrap();
    assert_eq!(output.repo, "myorg/myrepo");
}

#[test]
fn wizard_captures_context_file_when_user_says_yes() {
    let interactor = StubInteractor::new()
        .with_choice(0) // issue tracker: github
        .with_text("owner/repo") // repo
        .with_choice(0) // source control: git
        .with_choice(0) // agent: local
        .with_confirm(false) // settings file: no
        .with_confirm(true) // context file: yes
        .with_text("AGENTS.md") // context file path
        .with_choice(2) // merge strategy: feature-branch
        .with_confirm(true); // summary

    let output = run_wizard(interactor, &WizardHints::none()).unwrap();
    assert_eq!(output.context_file, Some("AGENTS.md".to_string()));
}

#[test]
fn wizard_context_file_is_none_when_user_says_no() {
    let interactor = StubInteractor::new()
        .with_choice(0) // issue tracker: github
        .with_text("owner/repo")
        .with_choice(0) // source control: git
        .with_choice(0) // agent: local
        .with_confirm(false) // settings file: no
        .with_confirm(false) // context file: no
        .with_choice(2)
        .with_confirm(true);

    let output = run_wizard(interactor, &WizardHints::none()).unwrap();
    assert_eq!(output.context_file, None);
}

#[test]
fn wizard_captures_merge_strategy_selection() {
    let interactor = StubInteractor::new()
        .with_choice(0) // issue tracker: github
        .with_text("owner/repo")
        .with_choice(0) // source control: git
        .with_choice(0) // agent: local
        .with_confirm(false) // settings file: no
        .with_confirm(false) // context file: no
        .with_choice(1) // merge strategy: per-ticket (index 1)
        .with_confirm(true);

    let output = run_wizard(interactor, &WizardHints::none()).unwrap();
    assert_eq!(output.merge_strategy, MergeStrategy::PerTicket);
}

#[test]
fn wizard_captures_settings_file_and_asks_in_order() {
    let interactor = StubInteractor::new()
        .with_choice(0)
        .with_text("o/r")
        .with_choice(0)
        .with_choice(0)
        .with_confirm(true) // settings file: yes
        .with_text("cfg/agent.json")
        .with_confirm(false)
        .with_choice(2)
        .with_confirm(true);
    let mut interview = Interview::new(interactor);

    let output = interactive_config_wizard(&mut interview, &WizardHints::none()).unwrap();

    assert_eq!(output.settings_file, Some("cfg/agent.json".to_string()));
    assert_eq!(output.issue_tracker_kind, IssueTrackerKind::GitHub);
    assert_eq!(output.agent_kind, AgentKind::Local);
    assert_eq!(output.merge_strategy, MergeStrategy::FeatureBranch);
}

#[test]
fn wizard_rejects_a_pick_outside_the_choices() {
    let err = run_wizard(AlwaysPicks(5), &WizardHints::none()).unwrap_err();
    assert!(matches!(err, Error::InvalidChoice(5)));
    assert_eq!(err.message(), "no choice at index 5");
}

#[test]
fn wizard_stops_at_the_first_failed_question() {
    let err = run_wizard(Cancels, &WizardHints::none()).unwrap_err();
    assert_eq!(err.message(), "cancelled");
}

#[test]
fn wizard_output_defaults_uses_github_issue_tracker() {
    let output = WizardOutput::defaults();
    assert_eq!(output.issue_tracker_kind, IssueTrackerKind::GitHub);
}

#[test]
fn wizard_output_defaults_uses_feature_branch_merge_strategy() {
    let output = WizardOutput::defaults();
    assert_eq!(output.merge_strategy, MergeStrategy::FeatureBranch);
}

#[test]
fn wizard_output_defaults_uses_local_agent() {
    let output = WizardOutput::defaults();
    assert_eq!(output.agent_kind, AgentKind::Local);
}

#[test]
fn choice_list_shows_label_and_description() {
    let lines = choice_list(MergeStrategy::all());
    assert_eq!(lines.len(), 3);
    assert_eq!(lines[0], format!("{} — {}", MergeStrategy::Direct.label(), MergeStrategy::Direct.description()));
    assert_eq!(lines[2], MergeStrategy::FeatureBranch.display());
}

#[test]
fn source_control_default_points_at_the_hinted_kind() {
    assert_eq!(source_control_default(None), None);
    assert_eq!(source_control_default(Some(SourceControlKind::Git)), Some(0));
    assert_eq!(source_control_default(Some(SourceControlKind::Unversioned)), Some(1));
}

// --- The configuration file ---

#[test]
fn config_toml_writes_issue_tracker_values() {
    let output = WizardOutput { repo: "acme/my-app".to_string(), ..WizardOutput::defaults() };
    let config = generate_config_toml(&output);
    assert!(config.contains("github"));
    assert!(config.contains("acme/my-app"));
}

#[test]
fn config_toml_writes_merge_strategy() {
    let output = WizardOutput { merge_strategy: MergeStrategy::PerTicket, ..WizardOutput::defaults() };
    let config = generate_config_toml(&output);
    assert!(config.contains("per-ticket"));
}

#[test]
fn config_toml_writes_merge_strategy_and_base_branch_under_source_control_section() {
    let raw = generate_config_toml(&WizardOutput::defaults());
    let sc_pos = raw.find("[source_control]").expect("[source_control] section missing");
    let run_pos = raw.find("[run]").expect("[run] section missing");
    assert!(sc_pos < run_pos, "[source_control] should appear before [run]");
    let sc_section = &raw[sc_pos..run_pos];
    assert!(sc_section.contains("merge_strategy"), "merge_strategy not in [source_control]");
    assert!(sc_section.contains("base_branch"), "base_branch not in [source_control]");
    let run_section = &raw[run_pos..];
    assert!(!run_section.contains("merge_strategy"), "merge_strategy must not appear in [run]");
}

#[test]
fn config_toml_writes_context_file_when_set() {
    let output = WizardOutput { context_file: Some("AGENTS.md".to_string()), ..WizardOutput::defaults() };
    let config = generate_config_toml(&output);
    assert!(config.contains("AGENTS.md"));
}

#[test]
fn config_toml_omits_context_file_when_not_set() {
    let output = WizardOutput { context_file: None, ..WizardOutput::defaults() };
    let config = generate_config_toml(&output);
    assert!(!config.contains("context_file"));
}

#[test]
fn config_toml_of_the_defaults_is_exact() {
    let expected = "\n[issue_tracker]\nkind = \"github\"\nrepo = \"owner/repo\"\n\n[source_control]\nkind = \"git\"\nbase_branch = \"main\"\nmerge_strategy = \"feature-branch\"\nuse_worktree = false\non_dirty_after_commit = \"warn\"\non_dirty_no_commits = \"fail\"\n\n[agent]\nkind = \"local\"\n\n[run]\nmax_iterations = 100\n";
    assert_eq!(generate_config_toml(&WizardOutput::defaults()), expected);
}

#[test]
fn config_toml_quotes_and_escapes_values() {
    let output = WizardOutput {
        repo: "we\"ird".to_string(),
        settings_file: Some("s.json".to_string()),
        context_file: Some("A.md".to_string()),
        ..WizardOutput::defaults()
    };
    let config = generate_config_toml(&output);
    assert!(config.starts_with("context_file = \"A.md\"\n\n[issue_tracker]"));
    assert!(config.contains("repo = \"we\\\"ird\"\n"));
    assert!(config.contains("kind = \"local\"\nsettings_file = \"s.json\"\n\n[run]"));
}
