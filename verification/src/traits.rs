//! The domain: issues, the adapter kinds a run can be configured with, the
//! run settings, events, errors, and the interfaces through which a run reaches
//! the outside world.
use vstd::prelude::*;
use crate::text::{decimal, push_str, str_eq, trim, u64_to_string};
use crate::github::types::GhIssue;
use crate::context::Call;

verus! {

/// The source control adapter a repository uses.
#[derive(Debug, Clone, Copy, PartialEq, Eq, Structural)]
pub enum SourceControlKind {
    Git,
    Unversioned,
}

impl SourceControlKind {
    /// The key under which the value is written in the config file.
    pub open spec fn key_view(self) -> Seq<char> {
        match self {
            SourceControlKind::Git => "git"@,
            SourceControlKind::Unversioned => "none"@,
        }
    }

    pub fn key(&self) -> (r: &'static str)
        ensures
            r@ == self.key_view(),
    {
        match self {
            SourceControlKind::Git => "git",
            SourceControlKind::Unversioned => "none",
        }
    }

    /// The name shown to a person.
    pub open spec fn label_view(self) -> Seq<char> {
        match self {
            SourceControlKind::Git => "Git"@,
            SourceControlKind::Unversioned => "None"@,
        }
    }

    pub fn label(&self) -> (r: &'static str)
        ensures
            r@ == self.label_view(),
    {
        match self {
            SourceControlKind::Git => "Git",
            SourceControlKind::Unversioned => "None",
        }
    }

    /// What choosing the value means.
    pub open spec fn description_view(self) -> Seq<char> {
        match self {
            SourceControlKind::Git => "Version control via git"@,
            SourceControlKind::Unversioned => "Skip version control — changes are not committed"@,
        }
    }

    pub fn description(&self) -> (r: &'static str)
        ensures
            r@ == self.description_view(),
    {
        match self {
            SourceControlKind::Git => "Version control via git",
            SourceControlKind::Unversioned => "Skip version control — changes are not committed",
        }
    }

    /// The label and the description, as the setup wizard lists them.
    pub open spec fn display_view(self) -> Seq<char> {
        self.label_view() + " — "@ + self.description_view()
    }

    pub fn display(&self) -> (r: String)
        ensures
            r@ == self.display_view(),
    {
        let mut r = String::new();
        push_str(&mut r, self.label());
        push_str(&mut r, " — ");
        push_str(&mut r, self.description());
        r
    }

    /// Every value, in the order the setup wizard offers them.
    pub open spec fn all_view() -> Seq<SourceControlKind> {
        seq![SourceControlKind::Git, SourceControlKind::Unversioned]
    }

    pub fn all() -> (r: &'static [SourceControlKind])
        ensures
            r@ == Self::all_view(),
    {
        let r: &'static [SourceControlKind] = &[SourceControlKind::Git, SourceControlKind::Unversioned];
        assert(r@ =~= Self::all_view());
        r
    }

    /// The value whose key is `key`.
    pub open spec fn from_key_view(key: Seq<char>) -> Option<SourceControlKind> {
        if key == "git"@ {
            Some(SourceControlKind::Git)
        } else if key == "none"@ {
            Some(SourceControlKind::Unversioned)
        } else {
            None
        }
    }

    pub fn from_key(key: &str) -> (r: Option<SourceControlKind>)
        ensures
            r == Self::from_key_view(key@),
    {
        if str_eq(key, "git") {
            Some(SourceControlKind::Git)
        } else if str_eq(key, "none") {
            Some(SourceControlKind::Unversioned)
        } else {
            None
        }
    }

    /// Writing a value by its key and reading the key back gives the value again,
    /// and no two values share a key.
    pub proof fn lemma_key_round_trip(self, key: Seq<char>)
        ensures
            Self::from_key_view(self.key_view()) == Some(self),
            Self::from_key_view(key) == Some(self) ==> key == self.key_view(),
    {
        reveal_strlit("git");
        reveal_strlit("none");
        assert("git"@.len() == 3);
        assert("none"@.len() == 4);
    }
}

/// How a run lays out branches and pull requests.
#[derive(Debug, Clone, Copy, PartialEq, Eq, Structural)]
pub enum MergeStrategy {
    Direct,
    PerTicket,
    FeatureBranch,
}

impl MergeStrategy {
    /// The key under which the value is written in the config file.
    pub open spec fn key_view(self) -> Seq<char> {
        match self {
            MergeStrategy::Direct => "direct"@,
            MergeStrategy::PerTicket => "per-ticket"@,
            MergeStrategy::FeatureBranch => "feature-branch"@,
        }
    }

    pub fn key(&self) -> (r: &'static str)
        ensures
            r@ == self.key_view(),
    {
        match self {
            MergeStrategy::Direct => "direct",
            MergeStrategy::PerTicket => "per-ticket",
            MergeStrategy::FeatureBranch => "feature-branch",
        }
    }

    /// The name shown to a person.
    pub open spec fn label_view(self) -> Seq<char> {
        match self {
            MergeStrategy::Direct => "Direct"@,
            MergeStrategy::PerTicket => "Per Ticket"@,
            MergeStrategy::FeatureBranch => "Feature Branch"@,
        }
    }

    pub fn label(&self) -> (r: &'static str)
        ensures
            r@ == self.label_view(),
    {
        match self {
            MergeStrategy::Direct => "Direct",
            MergeStrategy::PerTicket => "Per Ticket",
            MergeStrategy::FeatureBranch => "Feature Branch",
        }
    }

    /// What choosing the value means.
    pub open spec fn description_view(self) -> Seq<char> {
        match self {
            MergeStrategy::Direct => "Commit directly to the current branch"@,
            MergeStrategy::PerTicket => "Create a branch and PR per ticket"@,
            MergeStrategy::FeatureBranch => "All tickets share one branch and one PR"@,
        }
    }

    pub fn description(&self) -> (r: &'static str)
        ensures
            r@ == self.description_view(),
    {
        match self {
            MergeStrategy::Direct => "Commit directly to the current branch",
            MergeStrategy::PerTicket => "Create a branch and PR per ticket",
            MergeStrategy::FeatureBranch => "All tickets share one branch and one PR",
        }
    }

    /// The label and the description, as the setup wizard lists them.
    pub open spec fn display_view(self) -> Seq<char> {
        self.label_view() + " — "@ + self.description_view()
    }

    pub fn display(&self) -> (r: String)
        ensures
            r@ == self.display_view(),
    {
        let mut r = String::new();
        push_str(&mut r, self.label());
        push_str(&mut r, " — ");
        push_str(&mut r, self.description());
        r
    }

    /// Every value, in the order the setup wizard offers them.
    pub open spec fn all_view() -> Seq<MergeStrategy> {
        seq![MergeStrategy::Direct, MergeStrategy::PerTicket, MergeStrategy::FeatureBranch]
    }

    pub fn all() -> (r: &'static [MergeStrategy])
        ensures
            r@ == Self::all_view(),
    {
        let r: &'static [MergeStrategy] = &[MergeStrategy::Direct, MergeStrategy::PerTicket, MergeStrategy::FeatureBranch];
        assert(r@ =~= Self::all_view());
        r
    }

    /// The value whose key is `key`.
    pub open spec fn from_key_view(key: Seq<char>) -> Option<MergeStrategy> {
        if key == "direct"@ {
            Some(MergeStrategy::Direct)
        } else if key == "per-ticket"@ {
            Some(MergeStrategy::PerTicket)
        } else if key == "feature-branch"@ {
            Some(MergeStrategy::FeatureBranch)
        } else {
            None
        }
    }

    pub fn from_key(key: &str) -> (r: Option<MergeStrategy>)
        ensures
            r == Self::from_key_view(key@),
    {
        if str_eq(key, "direct") {
            Some(MergeStrategy::Direct)
        } else if str_eq(key, "per-ticket") {
            Some(MergeStrategy::PerTicket)
        } else if str_eq(key, "feature-branch") {
            Some(MergeStrategy::FeatureBranch)
        } else {
            None
        }
    }

    /// Writing a value by its key and reading the key back gives the value again,
    /// and no two values share a key.
    pub proof fn lemma_key_round_trip(self, key: Seq<char>)
        ensures
            Self::from_key_view(self.key_view()) == Some(self),
            Self::from_key_view(key) == Some(self) ==> key == self.key_view(),
    {
        reveal_strlit("direct");
        reveal_strlit("per-ticket");
        reveal_strlit("feature-branch");
        assert("direct"@.len() == 6);
        assert("per-ticket"@.len() == 10);
        assert("feature-branch"@.len() == 14);
    }
}

/// The issue tracker adapter.
#[derive(Debug, Clone, Copy, PartialEq, Eq, Structural)]
pub enum IssueTrackerKind {
    GitHub,
}

impl IssueTrackerKind {
    /// The key under which the value is written in the config file.
    pub open spec fn key_view(self) -> Seq<char> {
        match self {
            IssueTrackerKind::GitHub => "github"@,
        }
    }

    pub fn key(&self) -> (r: &'static str)
        ensures
            r@ == self.key_view(),
    {
        match self {
            IssueTrackerKind::GitHub => "github",
        }
    }

    /// The name shown to a person.
    pub open spec fn label_view(self) -> Seq<char> {
        match self {
            IssueTrackerKind::GitHub => "GitHub"@,
        }
    }

    pub fn label(&self) -> (r: &'static str)
        ensures
            r@ == self.label_view(),
    {
        match self {
            IssueTrackerKind::GitHub => "GitHub",
        }
    }

    /// What choosing the value means.
    pub open spec fn description_view(self) -> Seq<char> {
        match self {
            IssueTrackerKind::GitHub => "GitHub Issues via the gh CLI"@,
        }
    }

    pub fn description(&self) -> (r: &'static str)
        ensures
            r@ == self.description_view(),
    {
        match self {
            IssueTrackerKind::GitHub => "GitHub Issues via the gh CLI",
        }
    }

    /// The label and the description, as the setup wizard lists them.
    pub open spec fn display_view(self) -> Seq<char> {
        self.label_view() + " — "@ + self.description_view()
    }

    pub fn display(&self) -> (r: String)
        ensures
            r@ == self.display_view(),
    {
        let mut r = String::new();
        push_str(&mut r, self.label());
        push_str(&mut r, " — ");
        push_str(&mut r, self.description());
        r
    }

    /// Every value, in the order the setup wizard offers them.
    pub open spec fn all_view() -> Seq<IssueTrackerKind> {
        seq![IssueTrackerKind::GitHub]
    }

    pub fn all() -> (r: &'static [IssueTrackerKind])
        ensures
            r@ == Self::all_view(),
    {
        let r: &'static [IssueTrackerKind] = &[IssueTrackerKind::GitHub];
        assert(r@ =~= Self::all_view());
        r
    }

    /// The value whose key is `key`.
    pub open spec fn from_key_view(key: Seq<char>) -> Option<IssueTrackerKind> {
        if key == "github"@ {
            Some(IssueTrackerKind::GitHub)
        } else {
            None
        }
    }

    pub fn from_key(key: &str) -> (r: Option<IssueTrackerKind>)
        ensures
            r == Self::from_key_view(key@),
    {
        if str_eq(key, "github") {
            Some(IssueTrackerKind::GitHub)
        } else {
            None
        }
    }

    /// Writing a value by its key and reading the key back gives the value again,
    /// and no two values share a key.
    pub proof fn lemma_key_round_trip(self, key: Seq<char>)
        ensures
            Self::from_key_view(self.key_view()) == Some(self),
            Self::from_key_view(key) == Some(self) ==> key == self.key_view(),
    {
        reveal_strlit("github");
        assert("github"@.len() == 6);
    }
}

/// The agent runner adapter.
#[derive(Debug, Clone, Copy, PartialEq, Eq, Structural)]
pub enum AgentKind {
    Local,
}

impl AgentKind {
    /// The key under which the value is written in the config file.
    pub open spec fn key_view(self) -> Seq<char> {
        match self {
            AgentKind::Local => "local"@,
        }
    }

    pub fn key(&self) -> (r: &'static str)
        ensures
            r@ == self.key_view(),
    {
        match self {
            AgentKind::Local => "local",
        }
    }

    /// The name shown to a person.
    pub open spec fn label_view(self) -> Seq<char> {
        match self {
            AgentKind::Local => "Local"@,
        }
    }

    pub fn label(&self) -> (r: &'static str)
        ensures
            r@ == self.label_view(),
    {
        match self {
            AgentKind::Local => "Local",
        }
    }

    /// What choosing the value means.
    pub open spec fn description_view(self) -> Seq<char> {
        match self {
            AgentKind::Local => "Run a coding agent locally through its command-line tool"@,
        }
    }

    pub fn description(&self) -> (r: &'static str)
        ensures
            r@ == self.description_view(),
    {
        match self {
            AgentKind::Local => "Run a coding agent locally through its command-line tool",
        }
    }

    /// The label and the description, as the setup wizard lists them.
    pub open spec fn display_view(self) -> Seq<char> {
        self.label_view() + " — "@ + self.description_view()
    }

    pub fn display(&self) -> (r: String)
        ensures
            r@ == self.display_view(),
    {
        let mut r = String::new();
        push_str(&mut r, self.label());
        push_str(&mut r, " — ");
        push_str(&mut r, self.description());
        r
    }

    /// Every value, in the order the setup wizard offers them.
    pub open spec fn all_view() -> Seq<AgentKind> {
        seq![AgentKind::Local]
    }

    pub fn all() -> (r: &'static [AgentKind])
        ensures
            r@ == Self::all_view(),
    {
        let r: &'static [AgentKind] = &[AgentKind::Local];
        assert(r@ =~= Self::all_view());
        r
    }

    /// The value whose key is `key`.
    pub open spec fn from_key_view(key: Seq<char>) -> Option<AgentKind> {
        if key == "local"@ {
            Some(AgentKind::Local)
        } else {
            None
        }
    }

    pub fn from_key(key: &str) -> (r: Option<AgentKind>)
        ensures
            r == Self::from_key_view(key@),
    {
        if str_eq(key, "local") {
            Some(AgentKind::Local)
        } else {
            None
        }
    }

    /// Writing a value by its key and reading the key back gives the value again,
    /// and no two values share a key.
    pub proof fn lemma_key_round_trip(self, key: Seq<char>)
        ensures
            Self::from_key_view(self.key_view()) == Some(self),
            Self::from_key_view(key) == Some(self) ==> key == self.key_view(),
    {
        reveal_strlit("local");
        assert("local"@.len() == 5);
    }
}

/// What a run does when the working tree is not as it should be after the
/// agent implemented an issue.
#[derive(Debug, Clone, Copy, PartialEq, Eq, Structural)]
pub enum DirtyBehavior {
    Fail,
    Warn,
    Commit,
}

impl DirtyBehavior {
    /// The value whose key is `key`.
    pub open spec fn from_key_view(key: Seq<char>) -> Option<DirtyBehavior> {
        if key == "fail"@ {
            Some(DirtyBehavior::Fail)
        } else if key == "warn"@ {
            Some(DirtyBehavior::Warn)
        } else if key == "commit"@ {
            Some(DirtyBehavior::Commit)
        } else {
            None
        }
    }

    pub fn from_key(key: &str) -> (r: Option<DirtyBehavior>)
        ensures
            r == Self::from_key_view(key@),
    {
        if str_eq(key, "fail") {
            Some(DirtyBehavior::Fail)
        } else if str_eq(key, "warn") {
            Some(DirtyBehavior::Warn)
        } else if str_eq(key, "commit") {
            Some(DirtyBehavior::Commit)
        } else {
            None
        }
    }
}

/// An issue of the tracker.
#[derive(Debug, Clone)]
pub struct Issue {
    pub id: u64,
    pub title: String,
    pub body: String,
    pub labels: Vec<String>,
}

/// An issue as plain values.
pub struct IssueView {
    pub id: u64,
    pub title: Seq<char>,
    pub body: Seq<char>,
    pub labels: Seq<Seq<char>>,
}

/// The text of each string of `v`.
pub open spec fn strings_view(v: Seq<String>) -> Seq<Seq<char>> {
    v.map_values(|s: String| s@)
}

impl View for Issue {
    type V = IssueView;

    open spec fn view(&self) -> IssueView {
        IssueView {
            id: self.id,
            title: self.title@,
            body: self.body@,
            labels: strings_view(self.labels@),
        }
    }
}

impl IssueView {
    /// The issue carries the label `label`.
    pub open spec fn has_label(self, label: Seq<char>) -> bool {
        self.labels.contains(label)
    }
}

/// The label of an issue that is left to a person.
pub open spec fn hitl_label() -> Seq<char> {
    "hitl"@
}

/// The label that marks an issue as a feature.
pub open spec fn feature_label() -> Seq<char> {
    "feature"@
}

/// Whether one of `labels` is `label`.
pub fn has_label(labels: &Vec<String>, label: &str) -> (r: bool)
    ensures
        r == strings_view(labels@).contains(label@),
{
    let mut i: usize = 0;
    while i < labels.len()
        invariant
            i <= labels@.len(),
            forall|k: int| 0 <= k < i ==> labels@[k]@ != label@,
        decreases labels.len() - i,
    {
        if str_eq(labels[i].as_str(), label) {
            assert(strings_view(labels@)[i as int] == label@);
            return true;
        }
        i = i + 1;
    }
    assert forall|k: int| 0 <= k < strings_view(labels@).len() implies strings_view(labels@)[k]
        != label@ by {
        assert(strings_view(labels@)[k] == labels@[k]@);
    }
    false
}

/// Whether an issue is a feature, whose children make it up, or a ticket,
/// which the agent implements directly.
#[derive(Debug, Clone, Copy, PartialEq, Eq, Structural)]
pub enum IssueType {
    Feature,
    Ticket,
}

/// The settings of one run.
pub struct RunConfig {
    /// The most agent invocations the run may make.
    pub max_iterations: u32,
    pub merge_strategy: MergeStrategy,
    /// The branch new work is forked from, and the base of every diff.
    pub base_branch: String,
    pub use_worktree: bool,
    pub on_dirty_after_commit: DirtyBehavior,
    pub on_dirty_no_commits: DirtyBehavior,
    pub dry_run: bool,
    /// The contents of the repository's context file.
    pub repo_context: String,
    pub work_directory: String,
}

/// What one agent invocation printed, and whether it succeeded.
#[derive(Debug)]
pub struct AgentOutput {
    pub stdout: String,
    pub success: bool,
}

/// Progress of a run, as reported to an event sink.
#[derive(Debug)]
pub enum Event {
    IssueClaimed(u64),
    IssueComplete(u64),
    AgentStarted(u64),
    AgentFinished { issue_id: u64, success: bool },
    ReviewStarted,
    ReviewComplete { issues_created: usize },
    RunComplete,
}

/// Why an operation failed.
#[derive(Debug, Clone)]
pub enum Error {
    /// The run has made as many agent invocations as its budget allows.
    BudgetExhausted,
    /// An adapter reported a failure, in its own words.
    Failed(String),
    /// A prompt template file (named by its path) does not exist.
    MissingPrompt(String),
    /// A prompt template (named) has a closing documentation tag before its opening one.
    MalformedPrompt(String),
    /// A JSON document could not be decoded, in the decoder's words.
    InvalidJson(String),
    /// The branch after implementation is not the branch the ticket was given.
    BranchMismatch { expected: String, actual: String },
    /// The agent made no commits while implementing the issue.
    NoCommits(u64),
    /// The agent committed but left uncommitted changes behind.
    UncommittedChanges(u64),
    UnknownIssueTrackerKind(String),
    UnknownAgentKind(String),
    /// A URL (trimmed) that does not end in an issue number.
    InvalidUrl(String),
    /// Output of a commit count that is not a number.
    InvalidCount(String),
    /// A pick, by index, that is none of the choices offered.
    InvalidChoice(usize),
    /// A `local` agent is configured without the command it runs as.
    MissingAgentCommand,
}

impl Error {
    /// The message that describes the error.
    pub open spec fn message_view(self) -> Seq<char> {
        match self {
            Error::BudgetExhausted => "agent budget exhausted"@,
            Error::Failed(m) => m@,
            Error::MissingPrompt(path) => "missing prompt file: "@ + path@
                + " — run 'intern init' to scaffold defaults"@,
            Error::MalformedPrompt(name) => "prompt template '"@ + name@
                + "' closes a <strip-before-prompting> section before opening one"@,
            Error::InvalidJson(m) => "invalid JSON: "@ + m@,
            Error::BranchMismatch { expected, actual } => "branch mismatch after implement: expected '"@
                + expected@ + "', got '"@ + actual@ + "'"@,
            Error::NoCommits(id) => "agent made no commits for issue #"@ + decimal(id as nat),
            Error::UncommittedChanges(id) => "agent left uncommitted changes for issue #"@
                + decimal(id as nat),
            Error::UnknownIssueTrackerKind(kind) => "unknown issue_tracker.kind: "@ + kind@,
            Error::UnknownAgentKind(kind) => "unknown agent.kind: "@ + kind@,
            Error::InvalidUrl(url) => "failed to parse ID from URL '"@ + url@ + "'"@,
            Error::InvalidCount(out) => "unexpected commit count: "@ + out@,
            Error::InvalidChoice(i) => "no choice at index "@ + decimal(i as nat),
            Error::MissingAgentCommand => "agent.command is not set: name the agent's command-line tool"@,
        }
    }

    pub fn message(&self) -> (r: String)
        ensures
            r@ == self.message_view(),
    {
        let mut r = String::new();
        match self {
            Error::BudgetExhausted => push_str(&mut r, "agent budget exhausted"),
            Error::Failed(m) => push_str(&mut r, m.as_str()),
            Error::MissingPrompt(path) => {
                push_str(&mut r, "missing prompt file: ");
                push_str(&mut r, path.as_str());
                push_str(&mut r, " — run 'intern init' to scaffold defaults");
            },
            Error::MalformedPrompt(name) => {
                push_str(&mut r, "prompt template '");
                push_str(&mut r, name.as_str());
                push_str(&mut r, "' closes a <strip-before-prompting> section before opening one");
            },
            Error::InvalidJson(m) => {
                push_str(&mut r, "invalid JSON: ");
                push_str(&mut r, m.as_str());
            },
            Error::BranchMismatch { expected, actual } => {
                push_str(&mut r, "branch mismatch after implement: expected '");
                push_str(&mut r, expected.as_str());
                push_str(&mut r, "', got '");
                push_str(&mut r, actual.as_str());
                push_str(&mut r, "'");
            },
            Error::NoCommits(id) => {
                push_str(&mut r, "agent made no commits for issue #");
                let n = u64_to_string(*id);
                push_str(&mut r, n.as_str());
            },
            Error::UncommittedChanges(id) => {
                push_str(&mut r, "agent left uncommitted changes for issue #");
                let n = u64_to_string(*id);
                push_str(&mut r, n.as_str());
            },
            Error::UnknownIssueTrackerKind(kind) => {
                push_str(&mut r, "unknown issue_tracker.kind: ");
                push_str(&mut r, kind.as_str());
            },
            Error::UnknownAgentKind(kind) => {
                push_str(&mut r, "unknown agent.kind: ");
                push_str(&mut r, kind.as_str());
            },
            Error::InvalidUrl(url) => {
                push_str(&mut r, "failed to parse ID from URL '");
                push_str(&mut r, url.as_str());
                push_str(&mut r, "'");
            },
            Error::InvalidCount(out) => {
                push_str(&mut r, "unexpected commit count: ");
                push_str(&mut r, out.as_str());
            },
            Error::InvalidChoice(i) => {
                push_str(&mut r, "no choice at index ");
                let n = u64_to_string(*i as u64);
                push_str(&mut r, n.as_str());
            },
            Error::MissingAgentCommand => {
                push_str(&mut r, "agent.command is not set: name the agent's command-line tool");
            },
        }
        r
    }
}

// --- Interfaces to the outside world ---
/// Where issues are read and their progress recorded.
pub trait IssueTracker {
    /// Whether `call`, with the reply it records, is an outcome of asking this
    /// tracker, as an implementation may describe its answers. By default
    /// every reply is one: the library assumes nothing of the tracker, and
    /// only ties what it hands over and what its callers return to it.
    open spec fn handled(&self, call: Call) -> bool {
        true
    }

    fn get_issue(&self, id: u64) -> (r: Result<Issue, Error>)
        ensures
            self.handled(Call::GetIssue(id, r)),
    ;

    fn get_children(&self, id: u64) -> (r: Result<Vec<Issue>, Error>)
        ensures
            self.handled(Call::GetChildren(id, r)),
    ;

    fn get_issues_by_label(&self, label: &str) -> (r: Result<Vec<Issue>, Error>)
        ensures
            self.handled(Call::IssuesByLabel(label@, r)),
    ;

    fn claim_issue(&self, id: u64) -> (r: Result<(), Error>)
        ensures
            self.handled(Call::Claim(id, r)),
    ;

    fn complete_issue(&self, id: u64) -> (r: Result<(), Error>)
        ensures
            self.handled(Call::Complete(id, r)),
    ;

    fn skip_issue(&self, id: u64) -> (r: Result<(), Error>)
        ensures
            self.handled(Call::Skip(id, r)),
    ;

    fn post_comment(&self, id: u64, body: &str) -> (r: Result<(), Error>)
        ensures
            self.handled(Call::Comment(id, body@, r)),
    ;

    fn create_child_issue(&self, parent_id: u64, title: &str, body: &str) -> (r: Result<Issue, Error>)
        ensures
            self.handled(Call::CreateChild(parent_id, title@, body@, r)),
    ;

    fn issue_type(&self, id: u64) -> (r: Result<IssueType, Error>)
        ensures
            self.handled(Call::KindOf(id, r)),
    ;
}

/// The text of each path of `paths`, when there are paths.
pub open spec fn paths_view(paths: Option<&[&str]>) -> Option<Seq<Seq<char>>> {
    match paths {
        None => None,
        Some(p) => Some(args_view(p@)),
    }
}

/// The working copy and its history.
pub trait SourceControl {
    /// Whether `call`, with the reply it records, is an outcome of asking this
    /// source control; by default every reply is one (see
    /// [`IssueTracker::handled`]).
    open spec fn handled(&self, call: Call) -> bool {
        true
    }

    fn create_branch(&self, name: &str, from: &str) -> (r: Result<(), Error>)
        ensures
            self.handled(Call::CreateBranch(name@, from@, r)),
    ;

    fn current_branch(&self) -> (r: Result<String, Error>)
        ensures
            self.handled(Call::CurrentBranch(r)),
    ;

    fn diff_from_base(&self, base: &str) -> (r: Result<String, Error>)
        ensures
            self.handled(Call::Diff(base@, r)),
    ;

    /// Whether the working tree has uncommitted changes.
    fn has_uncommitted_changes(&self) -> (r: Result<bool, Error>)
        ensures
            self.handled(Call::HasUncommitted(r)),
    ;

    /// Whether the current branch has commits that `base` does not.
    fn has_commits_since(&self, base: &str) -> (r: Result<bool, Error>)
        ensures
            self.handled(Call::HasCommitsSince(base@, r)),
    ;

    /// Stages files before a commit: all of them for `None`, else the paths given.
    fn stage(&self, paths: Option<&[&str]>) -> (r: Result<(), Error>)
        ensures
            self.handled(
                match paths_view(paths) {
                    None => Call::StageAll(r),
                    Some(p) => Call::StagePaths(p, r),
                },
            ),
    ;

    fn commit(&self, message: &str) -> (r: Result<(), Error>)
        ensures
            self.handled(Call::Commit(message@, r)),
    ;
}

/// Where pull requests are opened.
pub trait RemoteClient {
    /// Whether `call`, with the reply it records, is an outcome of asking this
    /// remote; by default every reply is one (see [`IssueTracker::handled`]).
    open spec fn handled(&self, call: Call) -> bool {
        true
    }

    /// Opens a pull request from `branch` and gives its URL.
    fn create_pr(&self, title: &str, body: &str, branch: &str) -> (r: Result<String, Error>)
        ensures
            self.handled(Call::CreatePr(title@, body@, branch@, r)),
    ;
}

/// Runs the agent on a prompt.
pub trait AgentRunner {
    /// Whether `r` is an outcome of running the agent on `prompt` with the
    /// settings `config`, as an implementation may describe its runs; by
    /// default every outcome is one.
    open spec fn ran(&self, prompt: Seq<char>, config: RunConfig, r: Result<AgentOutput, Error>) -> bool {
        true
    }

    fn run(&self, prompt: &str, config: &RunConfig) -> (r: Result<AgentOutput, Error>)
        ensures
            self.ran(prompt@, *config, r),
    ;
}

/// Receives the progress of a run.
pub trait EventSink {
    /// Whether the sink may have been handed `call` (an event); by default
    /// every event is one.
    open spec fn handled(&self, call: Call) -> bool {
        true
    }

    fn emit(&self, event: Event)
        ensures
            self.handled(Call::Emit(event)),
    ;
}

/// The text of each argument of `args`.
pub open spec fn args_view(args: Seq<&str>) -> Seq<Seq<char>> {
    args.map_values(|a: &str| a@)
}

/// Runs an external program and gives what it printed.
pub trait CommandRunner {
    /// Whether `reply` is an outcome of running `program` with `args`, as an
    /// implementation may describe its runs. By default every reply is one: the
    /// library assumes nothing of a run, and only ties what its callers return
    /// to what the run handed back.
    closed spec fn ran(&self, program: Seq<char>, args: Seq<Seq<char>>, reply: Result<String, Error>) -> bool {
        true
    }

    fn run(&self, program: &str, args: &[&str]) -> (r: Result<String, Error>)
        ensures
            self.ran(program@, args_view(args@), r),
    ;
}

/// What a command run only for its effect gives back: nothing when it
/// succeeded, its error otherwise.
pub open spec fn unit_of(reply: Result<String, Error>) -> Result<(), Error> {
    match reply {
        Ok(_) => Ok(()),
        Err(e) => Err(e),
    }
}

/// `r` is what the command printed, trimmed, when it succeeded, and its error
/// otherwise.
pub open spec fn trimmed_reply(reply: Result<String, Error>, r: Result<String, Error>) -> bool {
    match reply {
        Ok(out) => r matches Ok(s) && s@ == trim(out@),
        Err(e) => r == Err::<String, Error>(e),
    }
}

/// Reads the repository's prompt templates by name.
pub trait PromptLoader {
    /// Whether `call`, with the reply it records, is an outcome of asking this
    /// loader; by default every reply is one.
    open spec fn handled(&self, call: Call) -> bool {
        true
    }

    fn load(&self, name: &str) -> (r: Result<String, Error>)
        ensures
            self.handled(Call::LoadPrompt(name@, r)),
    ;
}

/// Turns the JSON that the agent and the GitHub CLI print into values.
pub trait JsonDecoder {
    /// Whether `r` is an outcome of decoding `text` as one issue, as an
    /// implementation may describe its decoding. By default every outcome is
    /// one: the library assumes nothing of the decoder, and only ties what its
    /// callers return to what the decoder handed back.
    closed spec fn decodes_issue(&self, text: Seq<char>, r: Result<GhIssue, String>) -> bool {
        true
    }

    /// The same, for a list of issues.
    closed spec fn decodes_issues(&self, text: Seq<char>, r: Result<Vec<GhIssue>, String>) -> bool {
        true
    }

    /// The same, for an execution plan.
    closed spec fn decodes_plan(&self, text: Seq<char>, r: Result<Vec<u64>, String>) -> bool {
        true
    }

    /// The ids of an execution plan `[{"id": 3}, {"id": 1}]`, in order.
    fn decode_plan(&self, text: &str) -> (r: Result<Vec<u64>, String>)
        ensures
            self.decodes_plan(text@, r),
    ;

    /// One issue, as `gh issue view --json number,title,body,labels` prints it.
    fn decode_issue(&self, text: &str) -> (r: Result<GhIssue, String>)
        ensures
            self.decodes_issue(text@, r),
    ;

    /// A list of issues in the same shape.
    fn decode_issues(&self, text: &str) -> (r: Result<Vec<GhIssue>, String>)
        ensures
            self.decodes_issues(text@, r),
    ;
}

} // verus!
