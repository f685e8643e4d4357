//! Setting a repository up: the hints found in it, the interview that
//! settles its configuration, and the configuration file written from the
//! answers.
use vstd::prelude::*;
use crate::actions::filesystem::{detect_repo_slug, slug_detected};
use crate::text::{contains, is_trimmed, occurs_at, push_str};
use crate::traits::{
    strings_view, AgentKind, CommandRunner, Error, IssueTrackerKind, MergeStrategy,
    SourceControlKind,
};

verus! {

broadcast use {vstd::string::group_string_axioms, vstd::std_specs::vec::group_vec_axioms};

// ---------------------------------------------------------------------------
// Hints

/// What was found in the repository before the interview, offered as defaults.
#[derive(Debug)]
pub struct WizardHints {
    pub repo: Option<String>,
    pub context_file: Option<String>,
    pub source_control_kind: Option<SourceControlKind>,
}

impl WizardHints {
    /// No hints at all.
    pub fn none() -> (r: Self)
        ensures
            r.repo is None,
            r.context_file is None,
            r.source_control_kind is None,
    {
        WizardHints { repo: None, context_file: None, source_control_kind: None }
    }
}

/// The text of an optional string.
pub open spec fn opt_view(o: Option<String>) -> Option<Seq<char>> {
    match o {
        Some(s) => Some(s@),
        None => None,
    }
}

/// The files taken for the repository's context file, in order of preference.
pub open spec fn known_context_files() -> Seq<Seq<char>> {
    seq!["AGENTS.md"@]
}

/// The probe said, on some call with a path named `name`, whether that path exists.
pub open spec fn reported<F: Fn(&str) -> bool>(probe: F, name: Seq<char>, found: bool) -> bool {
    exists|n: &str| n@ == name && #[trigger] probe.ensures((n,), found)
}

/// `r` is the first of `names` that the probe found, and the probe found
/// none of the names before it; `None` when it found none of them.
pub open spec fn first_found<F: Fn(&str) -> bool>(
    probe: F,
    names: Seq<Seq<char>>,
    r: Option<Seq<char>>,
) -> bool {
    match r {
        Some(c) => exists|i: int|
            0 <= i < names.len() && names[i] == c && #[trigger] reported(probe, names[i], true)
                && forall|j: int| 0 <= j < i ==> reported(probe, names[j], false),
        None => forall|j: int| 0 <= j < names.len() ==> reported(probe, names[j], false),
    }
}

/// Looks at the repository for defaults: its GitHub slug, the first known
/// context file that exists, and git when a `.git` entry exists. `probe`
/// tells whether a path, relative to the repository, exists.
pub fn detect_wizard_hints<C: CommandRunner, F: Fn(&str) -> bool>(probe: F, runner: &C) -> (r: WizardHints)
    requires
        forall|n: &str| #[trigger] probe.requires((n,)),
    ensures
        r.repo matches Some(s) ==> is_trimmed(s@),
        slug_detected(runner, r.repo),
        first_found(probe, known_context_files(), opt_view(r.context_file)),
        r.source_control_kind matches Some(k) ==> k == SourceControlKind::Git && reported(
            probe,
            ".git"@,
            true,
        ),
        r.source_control_kind is None ==> reported(probe, ".git"@, false),
{
    let repo = detect_repo_slug(runner);
    let known: [&str; 1] = ["AGENTS.md"];
    proof {
        assert(known@.map_values(|s: &str| s@) =~= known_context_files());
    }
    let mut context_file: Option<String> = None;
    let mut k: usize = 0;
    while k < 1
        invariant_except_break
            context_file is None,
            forall|j: int| 0 <= j < k ==> reported(probe, known_context_files()[j], false),
        invariant
            k <= 1,
            known@.map_values(|s: &str| s@) == known_context_files(),
            forall|n: &str| #[trigger] probe.requires((n,)),
        ensures
            first_found(probe, known_context_files(), opt_view(context_file)),
        decreases 1 - k,
    {
        let name = known[k];
        let found = probe(name);
        assert(known_context_files()[k as int] == name@);
        if found {
            assert(reported(probe, known_context_files()[k as int], true));
            context_file = Some(name.to_string());
            assert(opt_view(context_file) == Some(known_context_files()[k as int]));
            break;
        }
        assert(reported(probe, known_context_files()[k as int], false));
        k = k + 1;
    }
    let has_git = probe(".git");
    let source_control_kind = if has_git {
        Some(SourceControlKind::Git)
    } else {
        None
    };
    WizardHints { repo, context_file, source_control_kind }
}

// ---------------------------------------------------------------------------
// The interview

/// The text of an optional default.
pub open spec fn default_view(default: Option<&str>) -> Option<Seq<char>> {
    match default {
        Some(d) => Some(d@),
        None => None,
    }
}

/// How the setup wizard asks a person for its answers.
pub trait UserInteractor {
    /// Whether `asked`, with the reply it records, is an outcome of asking
    /// through this interactor, as an implementation may describe it. By
    /// default every reply is one: the library assumes nothing of the person,
    /// and only ties what it asks and what it makes of the replies to them.
    open spec fn answered(&self, asked: Asked) -> bool {
        true
    }

    /// Asks for a line of text, offering `default`.
    fn prompt_text(&self, question: &str, default: Option<&str>) -> (r: Result<String, Error>)
        ensures
            self.answered(Asked::Text(question@, default_view(default), r)),
    ;

    /// Asks to pick one of `choices`, with the cursor on `default_idx`;
    /// gives the index of the pick.
    fn prompt_choice(
        &self,
        question: &str,
        choices: &[String],
        default_idx: Option<usize>,
    ) -> (r: Result<usize, Error>)
        ensures
            self.answered(Asked::Choice(question@, strings_view(choices@), default_idx, r)),
    ;

    /// Asks a yes-or-no question, offering `default`.
    fn prompt_confirm(&self, question: &str, default: bool) -> (r: Result<bool, Error>)
        ensures
            self.answered(Asked::Confirm(question@, default, r)),
    ;
}

/// One question of an interview, with what was offered and the reply.
pub enum Asked {
    Text(Seq<char>, Option<Seq<char>>, Result<String, Error>),
    Choice(Seq<char>, Seq<Seq<char>>, Option<usize>, Result<usize, Error>),
    Confirm(Seq<char>, bool, Result<bool, Error>),
}

/// The questions an interactor answered from index `s` of `log` on.
pub open spec fn answered_from<U: UserInteractor>(u: U, log: Seq<Asked>, s: int) -> bool {
    forall|i: int| s <= i < log.len() ==> u.answered(#[trigger] log[i])
}

/// The questions of `before` stay as they were in `after`, which asked at
/// most one more, answered by `u`.
proof fn lemma_kept<U: UserInteractor>(u: U, before: Seq<Asked>, after: Seq<Asked>, s: int)
    requires
        0 <= s <= before.len() <= after.len(),
        answered_from(u, before, s),
        after == before || (after.take(before.len() as int) == before && after.len() == before.len()
            + 1 && u.answered(after.last())),
    ensures
        after.take(s) == before.take(s),
        forall|i: int| 0 <= i < before.len() ==> #[trigger] after[i] == before[i],
        answered_from(u, after, s),
{
    if after == before {
        assert(after.take(before.len() as int) =~= before);
    }
    assert(after.take(s) =~= before.take(s));
    assert forall|i: int| 0 <= i < before.len() implies #[trigger] after[i] == before[i] by {
        assert(after.take(before.len() as int)[i] == after[i]);
    }
}

/// The pick a choice question settled on: the reply, when it names one of
/// the choices offered.
pub open spec fn picked(a: Asked) -> Result<usize, Error> {
    match a {
        Asked::Choice(_, choices, _, Ok(i)) => if i < choices.len() {
            Ok(i)
        } else {
            Err(Error::InvalidChoice(i))
        },
        Asked::Choice(_, _, _, Err(e)) => Err(e),
        _ => Err(Error::InvalidChoice(0)),
    }
}

/// An interview with a person, through an interactor, that keeps the
/// questions asked and the replies given.
pub struct Interview<U> {
    interactor: U,
    asked: Ghost<Seq<Asked>>,
}

impl<U: UserInteractor> Interview<U> {
    pub fn new(interactor: U) -> (r: Self)
        ensures
            r.asked() == Seq::<Asked>::empty(),
            r.interactor() == interactor,
    {
        Interview { interactor, asked: Ghost(Seq::empty()) }
    }

    /// The questions asked so far, oldest first.
    pub closed spec fn asked(&self) -> Seq<Asked> {
        self.asked@
    }

    /// Who answers the questions.
    pub closed spec fn interactor(&self) -> U {
        self.interactor
    }

    /// Asks for a line of text.
    pub fn text(&mut self, question: &str, default: Option<&str>) -> (r: Result<String, Error>)
        ensures
            final(self).interactor() == old(self).interactor(),
            old(self).interactor().answered(final(self).asked().last()),
            final(self).asked().len() == old(self).asked().len() + 1,
            final(self).asked().take(old(self).asked().len() as int) == old(self).asked(),
            final(self).asked() == old(self).asked().push(
                Asked::Text(
                    question@,
                    match default {
                        Some(d) => Some(d@),
                        None => None,
                    },
                    r,
                ),
            ),
    {
        let r = self.interactor.prompt_text(question, default);
        let ghost shown = match default {
            Some(d) => Some(d@),
            None => None,
        };
        self.asked = Ghost(self.asked@.push(Asked::Text(question@, shown, r)));
        r
    }

    /// Asks to pick one of `choices`; a reply outside the choices is an error.
    pub fn choice(&mut self, question: &str, choices: &Vec<String>, default: Option<usize>) -> (r:
        Result<usize, Error>)
        ensures
            final(self).interactor() == old(self).interactor(),
            old(self).interactor().answered(final(self).asked().last()),
            final(self).asked().len() == old(self).asked().len() + 1,
            final(self).asked().take(old(self).asked().len() as int) == old(self).asked(),
            final(self).asked().len() == old(self).asked().len() + 1,
            final(self).asked().drop_last() == old(self).asked(),
            final(self).asked().last() matches Asked::Choice(q, cs, d, _) && q == question@ && cs
                == strings_view(choices@) && d == default,
            r == picked(final(self).asked().last()),
    {
        let reply = self.interactor.prompt_choice(question, choices.as_slice(), default);
        let ghost a = Asked::Choice(question@, strings_view(choices@), default, reply);
        self.asked = Ghost(self.asked@.push(a));
        proof {
            assert(self.asked@.drop_last() =~= old(self).asked());
        }
        match reply {
            Ok(i) => if i < choices.len() {
                Ok(i)
            } else {
                Err(Error::InvalidChoice(i))
            },
            Err(e) => Err(e),
        }
    }

    /// Asks a yes-or-no question.
    pub fn confirm(&mut self, question: &str, default: bool) -> (r: Result<bool, Error>)
        ensures
            final(self).interactor() == old(self).interactor(),
            old(self).interactor().answered(final(self).asked().last()),
            final(self).asked().len() == old(self).asked().len() + 1,
            final(self).asked().take(old(self).asked().len() as int) == old(self).asked(),
            final(self).asked() == old(self).asked().push(Asked::Confirm(question@, default, r)),
    {
        let r = self.interactor.prompt_confirm(question, default);
        self.asked = Ghost(self.asked@.push(Asked::Confirm(question@, default, r)));
        r
    }
}

// ---------------------------------------------------------------------------
// Choices

/// A value the wizard offers in a list, shown by its label and description.
pub trait HasDescription: Sized {
    /// How the value is shown in the list.
    spec fn shown(&self) -> Seq<char>;

    fn display_choice(&self) -> (r: String)
        ensures
            r@ == self.shown(),
    ;
}

impl HasDescription for IssueTrackerKind {
    open spec fn shown(&self) -> Seq<char> {
        self.display_view()
    }

    fn display_choice(&self) -> (r: String) {
        self.display()
    }
}

impl HasDescription for SourceControlKind {
    open spec fn shown(&self) -> Seq<char> {
        self.display_view()
    }

    fn display_choice(&self) -> (r: String) {
        self.display()
    }
}

impl HasDescription for AgentKind {
    open spec fn shown(&self) -> Seq<char> {
        self.display_view()
    }

    fn display_choice(&self) -> (r: String) {
        self.display()
    }
}

impl HasDescription for MergeStrategy {
    open spec fn shown(&self) -> Seq<char> {
        self.display_view()
    }

    fn display_choice(&self) -> (r: String) {
        self.display()
    }
}

/// How a list of values is shown, one line per value.
pub open spec fn choices_view<T: HasDescription>(items: Seq<T>) -> Seq<Seq<char>> {
    items.map_values(|t: T| t.shown())
}

/// The lines that show `items` for a choice.
pub fn choice_list<T: HasDescription>(items: &[T]) -> (r: Vec<String>)
    ensures
        strings_view(r@) == choices_view(items@),
{
    let mut r: Vec<String> = Vec::new();
    let mut k: usize = 0;
    while k < items.len()
        invariant
            k <= items@.len(),
            strings_view(r@) == choices_view(items@.take(k as int)),
        decreases items.len() - k,
    {
        let line = items[k].display_choice();
        let ghost before = r@;
        r.push(line);
        proof {
            assert(strings_view(r@) =~= strings_view(before).push(line@));
            assert(items@.take(k + 1) =~= items@.take(k as int).push(items@[k as int]));
            assert(choices_view(items@.take(k + 1)) =~= choices_view(items@.take(k as int)).push(
                items@[k as int].shown(),
            ));
        }
        k = k + 1;
    }
    proof {
        assert(items@.take(items@.len() as int) =~= items@);
    }
    r
}

// ---------------------------------------------------------------------------
// The wizard

/// The settings the wizard settled on.
#[derive(Debug)]
pub struct WizardOutput {
    pub issue_tracker_kind: IssueTrackerKind,
    pub repo: String,
    pub source_control_kind: SourceControlKind,
    pub agent_kind: AgentKind,
    pub settings_file: Option<String>,
    pub context_file: Option<String>,
    pub merge_strategy: MergeStrategy,
}

/// The settings of a [`WizardOutput`], as plain values.
pub struct WizardOutputView {
    pub issue_tracker_kind: IssueTrackerKind,
    pub repo: Seq<char>,
    pub source_control_kind: SourceControlKind,
    pub agent_kind: AgentKind,
    pub settings_file: Option<Seq<char>>,
    pub context_file: Option<Seq<char>>,
    pub merge_strategy: MergeStrategy,
}

impl View for WizardOutput {
    type V = WizardOutputView;

    open spec fn view(&self) -> WizardOutputView {
        WizardOutputView {
            issue_tracker_kind: self.issue_tracker_kind,
            repo: self.repo@,
            source_control_kind: self.source_control_kind,
            agent_kind: self.agent_kind,
            settings_file: opt_view(self.settings_file),
            context_file: opt_view(self.context_file),
            merge_strategy: self.merge_strategy,
        }
    }
}

impl WizardOutput {
    /// The settings `intern init --defaults` writes.
    pub fn defaults() -> (r: Self)
        ensures
            r@ == (WizardOutputView {
                issue_tracker_kind: IssueTrackerKind::GitHub,
                repo: "owner/repo"@,
                source_control_kind: SourceControlKind::Git,
                agent_kind: AgentKind::Local,
                settings_file: None,
                context_file: None,
                merge_strategy: MergeStrategy::FeatureBranch,
            }),
    {
        WizardOutput {
            issue_tracker_kind: IssueTrackerKind::GitHub,
            repo: "owner/repo".to_string(),
            source_control_kind: SourceControlKind::Git,
            agent_kind: AgentKind::Local,
            settings_file: None,
            context_file: None,
            merge_strategy: MergeStrategy::FeatureBranch,
        }
    }
}

/// The repository offered: the one found, else a placeholder.
pub open spec fn repo_default(hints: WizardHints) -> Seq<char> {
    match hints.repo {
        Some(r) => r@,
        None => "owner/repo"@,
    }
}

/// The context file offered: the one found, else `AGENTS.md`.
pub open spec fn context_file_default(hints: WizardHints) -> Seq<char> {
    match hints.context_file {
        Some(c) => c@,
        None => "AGENTS.md"@,
    }
}

/// The cursor `d` of the source control question sits on the kind that was
/// found, at its first place in the list; nowhere when none was found.
pub open spec fn offers_default(d: Option<usize>, hint: Option<SourceControlKind>) -> bool {
    match hint {
        None => d is None,
        Some(k) => d matches Some(i) && i < SourceControlKind::all_view().len()
            && SourceControlKind::all_view()[i as int] == k && forall|j: int|
            0 <= j < i ==> SourceControlKind::all_view()[j] != k,
    }
}

/// Where the cursor of the source control question starts.
pub fn source_control_default(hint: Option<SourceControlKind>) -> (r: Option<usize>)
    ensures
        offers_default(r, hint),
{
    match hint {
        None => None,
        Some(k) => {
            let all = SourceControlKind::all();
            let mut i: usize = 0;
            while i < all.len()
                invariant
                    hint == Some(k),
                    all@ == SourceControlKind::all_view(),
                    i <= all@.len(),
                    forall|j: int| 0 <= j < i ==> all@[j] != k,
                decreases all.len() - i,
            {
                let here = all[i];
                if here == k {
                    assert(all@[i as int] == k);
                    assert forall|j: int| 0 <= j < i implies SourceControlKind::all_view()[j] != k by {
                        assert(all@[j] != k);
                    }
                    return Some(i);
                }
                i = i + 1;
            }
            proof {
                assert(all@[0] == SourceControlKind::Git);
                assert(all@[1] == SourceControlKind::Unversioned);
            }
            None
        },
    }
}

/// The question that closes the interview, which shows the main settings.
pub open spec fn summary_question(out: WizardOutputView) -> Seq<char> {
    "Settings look good?\n  issue_tracker: "@ + out.issue_tracker_kind.key_view() + " | repo: "@
        + out.repo + " | agent: "@ + out.agent_kind.key_view() + " | merge_strategy: "@
        + out.merge_strategy.key_view()
}

/// The interview ended at index `k` of `log`, which failed with `e`.
pub open spec fn ends_with_error<T>(log: Seq<Asked>, k: int, e: Error, r: Result<T, Error>) -> bool {
    log.len() == k + 1 && r == Err::<T, Error>(e)
}

/// The interview, from its start at index `s` of `log`: the issue tracker,
/// the repository (the one found offered), the source control (the kind found
/// offered), and the agent; then the settings file.
pub open spec fn interviewed(
    hints: WizardHints,
    log: Seq<Asked>,
    s: int,
    r: Result<WizardOutput, Error>,
) -> bool {
    &&& 0 <= s < log.len()
    &&& log[s] matches Asked::Choice(q, cs, d, _) && q == "Issue tracker"@ && cs == choices_view(
        IssueTrackerKind::all_view(),
    ) && d is None
    &&& match picked(log[s]) {
        Err(e) => ends_with_error(log, s, e, r),
        Ok(ti) => {
            &&& s + 1 < log.len()
            &&& log[s + 1] matches Asked::Text(q, d, repo) && q == "Repository (owner/repo)"@ && d
                == Some(repo_default(hints)) && match repo {
                Err(e) => ends_with_error(log, s + 1, e, r),
                Ok(repo) => {
                    &&& s + 2 < log.len()
                    &&& log[s + 2] matches Asked::Choice(q, cs, d, _) && q == "Source control"@ && cs
                        == choices_view(SourceControlKind::all_view()) && offers_default(
                        d,
                        hints.source_control_kind,
                    )
                    &&& match picked(log[s + 2]) {
                        Err(e) => ends_with_error(log, s + 2, e, r),
                        Ok(si) => {
                            &&& s + 3 < log.len()
                            &&& log[s + 3] matches Asked::Choice(q, cs, d, _) && q == "Agent"@ && cs
                                == choices_view(AgentKind::all_view()) && d is None
                            &&& match picked(log[s + 3]) {
                                Err(e) => ends_with_error(log, s + 3, e, r),
                                Ok(ai) => settings_asked(
                                    hints,
                                    log,
                                    s + 4,
                                    IssueTrackerKind::all_view()[ti as int],
                                    repo@,
                                    SourceControlKind::all_view()[si as int],
                                    AgentKind::all_view()[ai as int],
                                    r,
                                ),
                            }
                        },
                    }
                },
            }
        },
    }
}

/// The interview from index `s`: whether an agent settings file is used, and
/// which one (nothing offered); then the context file.
pub open spec fn settings_asked(
    hints: WizardHints,
    log: Seq<Asked>,
    s: int,
    tracker: IssueTrackerKind,
    repo: Seq<char>,
    source_control: SourceControlKind,
    agent: AgentKind,
    r: Result<WizardOutput, Error>,
) -> bool {
    &&& 0 <= s < log.len()
    &&& log[s] matches Asked::Confirm(q, d, yes) && q == "Specify an agent settings file?"@ && !d
        && match yes {
        Err(e) => ends_with_error(log, s, e, r),
        Ok(false) => context_asked(hints, log, s + 1, tracker, repo, source_control, agent, None, r),
        Ok(true) => {
            &&& s + 1 < log.len()
            &&& log[s + 1] matches Asked::Text(q, d, file) && q == "Settings file path"@ && d is None
                && match file {
                Err(e) => ends_with_error(log, s + 1, e, r),
                Ok(file) => context_asked(
                    hints,
                    log,
                    s + 2,
                    tracker,
                    repo,
                    source_control,
                    agent,
                    Some(file@),
                    r,
                ),
            }
        },
    }
}

/// The interview from index `s`: whether a context file is used, and which
/// one (the one found offered); then the merge strategy.
pub open spec fn context_asked(
    hints: WizardHints,
    log: Seq<Asked>,
    s: int,
    tracker: IssueTrackerKind,
    repo: Seq<char>,
    source_control: SourceControlKind,
    agent: AgentKind,
    settings_file: Option<Seq<char>>,
    r: Result<WizardOutput, Error>,
) -> bool {
    &&& 0 <= s < log.len()
    &&& log[s] matches Asked::Confirm(q, d, yes) && q == "Specify a context file (e.g. AGENTS.md)?"@
        && !d && match yes {
        Err(e) => ends_with_error(log, s, e, r),
        Ok(false) => strategy_asked(
            log,
            s + 1,
            tracker,
            repo,
            source_control,
            agent,
            settings_file,
            None,
            r,
        ),
        Ok(true) => {
            &&& s + 1 < log.len()
            &&& log[s + 1] matches Asked::Text(q, d, file) && q == "Context file path"@ && d == Some(
                context_file_default(hints),
            ) && match file {
                Err(e) => ends_with_error(log, s + 1, e, r),
                Ok(file) => strategy_asked(
                    log,
                    s + 2,
                    tracker,
                    repo,
                    source_control,
                    agent,
                    settings_file,
                    Some(file@),
                    r,
                ),
            }
        },
    }
}

/// The interview from index `s`: the merge strategy, then the summary of the
/// settings for a last confirmation. Whatever the reply, the settings stand.
pub open spec fn strategy_asked(
    log: Seq<Asked>,
    s: int,
    tracker: IssueTrackerKind,
    repo: Seq<char>,
    source_control: SourceControlKind,
    agent: AgentKind,
    settings_file: Option<Seq<char>>,
    context_file: Option<Seq<char>>,
    r: Result<WizardOutput, Error>,
) -> bool {
    &&& 0 <= s < log.len()
    &&& log[s] matches Asked::Choice(q, cs, d, _) && q == "Merge strategy"@ && cs == choices_view(
        MergeStrategy::all_view(),
    ) && d is None
    &&& match picked(log[s]) {
        Err(e) => ends_with_error(log, s, e, r),
        Ok(mi) => {
            let out = WizardOutputView {
                issue_tracker_kind: tracker,
                repo,
                source_control_kind: source_control,
                agent_kind: agent,
                settings_file,
                context_file,
                merge_strategy: MergeStrategy::all_view()[mi as int],
            };
            &&& s + 1 < log.len()
            &&& log[s + 1] matches Asked::Confirm(q, d, ok) && q == summary_question(out) && d
                && match ok {
                Err(e) => ends_with_error(log, s + 1, e, r),
                Ok(_) => log.len() == s + 2 && (r matches Ok(o) && o@ == out),
            }
        },
    }
}

/// The question that closes the interview.
fn summary(out: &WizardOutput) -> (r: String)
    ensures
        r@ == summary_question(out@),
{
    let mut r = String::new();
    push_str(&mut r, "Settings look good?\n  issue_tracker: ");
    push_str(&mut r, out.issue_tracker_kind.key());
    push_str(&mut r, " | repo: ");
    push_str(&mut r, out.repo.as_str());
    push_str(&mut r, " | agent: ");
    push_str(&mut r, out.agent_kind.key());
    push_str(&mut r, " | merge_strategy: ");
    push_str(&mut r, out.merge_strategy.key());
    r
}

/// Interviews a person for the settings of a repository, offering what
/// `hints` found as defaults; fails as soon as a question fails.
#[verifier::spinoff_prover]
#[verifier::rlimit(40)]
pub fn interactive_config_wizard<U: UserInteractor>(
    interview: &mut Interview<U>,
    hints: &WizardHints,
) -> (r: Result<WizardOutput, Error>)
    ensures
        final(interview).asked().len() > old(interview).asked().len(),
        final(interview).asked().take(old(interview).asked().len() as int) == old(interview).asked(),
        final(interview).interactor() == old(interview).interactor(),
        answered_from(old(interview).interactor(), final(interview).asked(), old(interview).asked().len() as int),
        interviewed(*hints, final(interview).asked(), old(interview).asked().len() as int, r),
{
    let ghost s = old(interview).asked().len() as int;
    let trackers = IssueTrackerKind::all();
    let tracker_choices = choice_list(trackers);
    let ti = interview.choice("Issue tracker", &tracker_choices, None);
    let ghost log0 = interview.asked();
    proof {
        lemma_kept(old(interview).interactor(), old(interview).asked(), log0, s);
    }
    let ti = match ti {
        Err(e) => return Err(e),
        Ok(i) => i,
    };
    let issue_tracker_kind = trackers[ti];

    let repo_default = match &hints.repo {
        Some(r) => r.as_str(),
        None => "owner/repo",
    };
    let repo = interview.text("Repository (owner/repo)", Some(repo_default));
    let ghost log1 = interview.asked();
    proof {
        lemma_kept(old(interview).interactor(), log0, log1, s);
    }
    let repo = match repo {
        Err(e) => return Err(e),
        Ok(repo) => repo,
    };
    let sources = SourceControlKind::all();
    let source_choices = choice_list(sources);
    let sc_default = source_control_default(hints.source_control_kind);
    let si = interview.choice("Source control", &source_choices, sc_default);
    let ghost log2 = interview.asked();
    proof {
        lemma_kept(old(interview).interactor(), log1, log2, s);
    }
    let si = match si {
        Err(e) => return Err(e),
        Ok(i) => i,
    };
    let source_control_kind = sources[si];

    let agents = AgentKind::all();
    let agent_choices = choice_list(agents);
    let ai = interview.choice("Agent", &agent_choices, None);
    let ghost log3 = interview.asked();
    proof {
        lemma_kept(old(interview).interactor(), log2, log3, s);
    }
    let ai = match ai {
        Err(e) => return Err(e),
        Ok(i) => i,
    };
    let agent_kind = agents[ai];

    let use_settings = interview.confirm("Specify an agent settings file?", false);
    let ghost log4 = interview.asked();
    proof {
        lemma_kept(old(interview).interactor(), log3, log4, s);
    }
    let use_settings = match use_settings {
        Err(e) => return Err(e),
        Ok(b) => b,
    };
    let settings_file = if use_settings {
        match interview.text("Settings file path", None) {
            Err(e) => {
                proof {
                    lemma_kept(old(interview).interactor(), log4, interview.asked(), s);
                }
                return Err(e);
            },
            Ok(file) => Some(file),
        }
    } else {
        None
    };
    let ghost n = interview.asked().len() as int;
    let ghost log5 = interview.asked();
    proof {
        lemma_kept(old(interview).interactor(), log4, log5, s);
    }

    let context_default = match &hints.context_file {
        Some(c) => c.as_str(),
        None => "AGENTS.md",
    };
    let use_context = interview.confirm("Specify a context file (e.g. AGENTS.md)?", false);
    let ghost log6 = interview.asked();
    proof {
        lemma_kept(old(interview).interactor(), log5, log6, s);
    }
    let use_context = match use_context {
        Err(e) => return Err(e),
        Ok(b) => b,
    };
    let context_file = if use_context {
        match interview.text("Context file path", Some(context_default)) {
            Err(e) => {
                proof {
                    lemma_kept(old(interview).interactor(), log6, interview.asked(), s);
                }
                return Err(e);
            },
            Ok(file) => Some(file),
        }
    } else {
        None
    };
    let ghost m = interview.asked().len() as int;
    let ghost log7 = interview.asked();
    proof {
        lemma_kept(old(interview).interactor(), log6, log7, s);
    }

    let strategies = MergeStrategy::all();
    let strategy_choices = choice_list(strategies);
    let mi = interview.choice("Merge strategy", &strategy_choices, None);
    let ghost log8 = interview.asked();
    proof {
        lemma_kept(old(interview).interactor(), log7, log8, s);
    }
    let mi = match mi {
        Err(e) => return Err(e),
        Ok(i) => i,
    };
    let output = WizardOutput {
        issue_tracker_kind,
        repo,
        source_control_kind,
        agent_kind,
        settings_file,
        context_file,
        merge_strategy: strategies[mi],
    };
    let question = summary(&output);
    let confirmed = interview.confirm(question.as_str(), true);
    proof {
        lemma_kept(old(interview).interactor(), log8, interview.asked(), s);
    }
    match confirmed {
        Err(e) => Err(e),
        Ok(_) => Ok(output),
    }
}
// ---------------------------------------------------------------------------
// The configuration file

/// What `format!("{:?}", s)` writes for the string `s`: the string as a
/// quoted literal, its quotes, backslashes and special characters escaped.
pub uninterp spec fn debug_quoted(s: Seq<char>) -> Seq<char>;

/// `s` written by std's `Debug` for `str` (`format!("{:?}", s)`). The contract
/// names the result and says no more of it than that it depends on `s` alone.
#[verifier::external_body]
fn quoted(s: &str) -> (r: String)
    ensures
        r@ == debug_quoted(s@),
{
    format!("{:?}", s)
}

/// A key of the configuration file between double quotes: the keys hold
/// nothing that a TOML string would have to escape.
pub open spec fn key_quoted(key: Seq<char>) -> Seq<char> {
    "\""@ + key + "\""@
}

fn quoted_key(key: &str) -> (r: String)
    ensures
        r@ == key_quoted(key@),
{
    let mut r = String::new();
    push_str(&mut r, "\"");
    push_str(&mut r, key);
    push_str(&mut r, "\"");
    r
}

/// The `.intern/config.toml` written for the settings `w`: the context file
/// when there is one, the issue tracker, the source control with the default
/// base branch and dirty-tree policies, the agent with its settings file when
/// there is one, and the default invocation budget.
pub open spec fn config_toml(w: WizardOutputView) -> Seq<char> {
    (match w.context_file {
        Some(c) => "context_file = "@ + debug_quoted(c) + "\n"@,
        None => Seq::empty(),
    }) + "\n"@
        + ("[issue_tracker]\nkind = \""@ + w.issue_tracker_kind.key_view() + "\"\n"@)
        + ("repo = "@ + debug_quoted(w.repo)) + "\n\n"@
        + ("[source_control]\nkind = \""@ + w.source_control_kind.key_view() + "\"\n"@)
        + "base_branch = \"main\"\n"@
        + ("merge_strategy = \""@ + w.merge_strategy.key_view() + "\"\n"@)
        + "use_worktree = false\non_dirty_after_commit = \"warn\"\non_dirty_no_commits = \"fail\"\n\n"@
        + ("[agent]\nkind = \""@ + w.agent_kind.key_view() + "\"\n"@)
        + (match w.settings_file {
        Some(f) => "settings_file = "@ + debug_quoted(f) + "\n"@,
        None => Seq::empty(),
    }) + "\n[run]\nmax_iterations = 100\n"@
}

/// What occurs in `x` occurs in `x` followed by `y`.
proof fn lemma_contains_extend(x: Seq<char>, y: Seq<char>)
    ensures
        forall|p: Seq<char>| contains(x, p) ==> #[trigger] contains(x + y, p),
{
    assert forall|p: Seq<char>| contains(x, p) implies #[trigger] contains(x + y, p) by {
        let i = choose|i: int| occurs_at(x, p, i);
        assert((x + y).subrange(i, i + p.len()) =~= x.subrange(i, i + p.len()));
        assert(occurs_at(x + y, p, i));
    }
}

/// `p` occurs at the end of `x + p`.
proof fn lemma_contains_end(x: Seq<char>, p: Seq<char>)
    ensures
        contains(x + p, p),
{
    assert((x + p).subrange(x.len() as int, (x.len() + p.len()) as int) =~= p);
    assert(occurs_at(x + p, p, x.len() as int));
}

/// The configuration file records the settings chosen: the issue tracker,
/// the source control, the merge strategy and the agent are each written
/// under their own key, by their own key word, between quotes and on a line
/// of their own, and each key word reads back as the value chosen; the
/// repository, the context file and the settings file are written as given,
/// next to the fixed defaults.
pub proof fn lemma_config_records_choices(w: WizardOutputView)
    ensures
        contains(config_toml(w), "[issue_tracker]\nkind = \""@ + w.issue_tracker_kind.key_view() + "\"\n"@),
        contains(config_toml(w), "repo = "@ + debug_quoted(w.repo)),
        contains(config_toml(w), "[source_control]\nkind = \""@ + w.source_control_kind.key_view() + "\"\n"@),
        contains(config_toml(w), "merge_strategy = \""@ + w.merge_strategy.key_view() + "\"\n"@),
        contains(config_toml(w), "[agent]\nkind = \""@ + w.agent_kind.key_view() + "\"\n"@),
        w.context_file matches Some(c) ==> contains(config_toml(w), "context_file = "@ + debug_quoted(c) + "\n"@),
        w.settings_file matches Some(f) ==> contains(config_toml(w), "settings_file = "@ + debug_quoted(f) + "\n"@),
        contains(config_toml(w), "base_branch = \"main\"\n"@),
        contains(config_toml(w), "use_worktree = false\non_dirty_after_commit = \"warn\"\non_dirty_no_commits = \"fail\"\n\n"@),
        contains(config_toml(w), "\n[run]\nmax_iterations = 100\n"@),
        IssueTrackerKind::from_key_view(w.issue_tracker_kind.key_view()) == Some(w.issue_tracker_kind),
        SourceControlKind::from_key_view(w.source_control_kind.key_view()) == Some(w.source_control_kind),
        MergeStrategy::from_key_view(w.merge_strategy.key_view()) == Some(w.merge_strategy),
        AgentKind::from_key_view(w.agent_kind.key_view()) == Some(w.agent_kind),
{
    w.issue_tracker_kind.lemma_key_round_trip(Seq::empty());
    w.source_control_kind.lemma_key_round_trip(Seq::empty());
    w.merge_strategy.lemma_key_round_trip(Seq::empty());
    w.agent_kind.lemma_key_round_trip(Seq::empty());
    let c0 = match w.context_file {
        Some(c) => "context_file = "@ + debug_quoted(c) + "\n"@,
        None => Seq::<char>::empty(),
    };
    let sf = match w.settings_file {
        Some(f) => "settings_file = "@ + debug_quoted(f) + "\n"@,
        None => Seq::<char>::empty(),
    };
    let it = "[issue_tracker]\nkind = \""@ + w.issue_tracker_kind.key_view() + "\"\n"@;
    let repo = "repo = "@ + debug_quoted(w.repo);
    let sc = "[source_control]\nkind = \""@ + w.source_control_kind.key_view() + "\"\n"@;
    let bb = "base_branch = \"main\"\n"@;
    let ms = "merge_strategy = \""@ + w.merge_strategy.key_view() + "\"\n"@;
    let uw = "use_worktree = false\non_dirty_after_commit = \"warn\"\non_dirty_no_commits = \"fail\"\n\n"@;
    let ag = "[agent]\nkind = \""@ + w.agent_kind.key_view() + "\"\n"@;
    let run = "\n[run]\nmax_iterations = 100\n"@;
    let nl = "\n"@;
    let nn = "\n\n"@;
    lemma_contains_end(Seq::<char>::empty(), c0);
    assert(Seq::<char>::empty() + c0 =~= c0);
    let s1 = c0 + nl;
    lemma_contains_extend(c0, nl);
    let s2 = s1 + it;
    lemma_contains_extend(s1, it);
    lemma_contains_end(s1, it);
    let s3 = s2 + repo;
    lemma_contains_extend(s2, repo);
    lemma_contains_end(s2, repo);
    let s4 = s3 + nn;
    lemma_contains_extend(s3, nn);
    let s5 = s4 + sc;
    lemma_contains_extend(s4, sc);
    lemma_contains_end(s4, sc);
    let s6 = s5 + bb;
    lemma_contains_extend(s5, bb);
    lemma_contains_end(s5, bb);
    let s7 = s6 + ms;
    lemma_contains_extend(s6, ms);
    lemma_contains_end(s6, ms);
    let s8 = s7 + uw;
    lemma_contains_extend(s7, uw);
    lemma_contains_end(s7, uw);
    let s9 = s8 + ag;
    lemma_contains_extend(s8, ag);
    lemma_contains_end(s8, ag);
    let s10 = s9 + sf;
    lemma_contains_extend(s9, sf);
    lemma_contains_end(s9, sf);
    let s11 = s10 + run;
    lemma_contains_extend(s10, run);
    lemma_contains_end(s10, run);
    assert(config_toml(w) == s11);
}

/// The configuration file for the settings the wizard settled on.
pub fn generate_config_toml(wizard: &WizardOutput) -> (r: String)
    ensures
        r@ == config_toml(wizard@),
{
    let mut r = String::new();
    if let Some(c) = &wizard.context_file {
        push_str(&mut r, "context_file = ");
        let q = quoted(c.as_str());
        push_str(&mut r, q.as_str());
        push_str(&mut r, "\n");
    }
    push_str(&mut r, "\n");
    push_str(&mut r, "[issue_tracker]\nkind = \"");
    push_str(&mut r, wizard.issue_tracker_kind.key());
    push_str(&mut r, "\"\n");
    push_str(&mut r, "repo = ");
    let q = quoted(wizard.repo.as_str());
    push_str(&mut r, q.as_str());
    push_str(&mut r, "\n\n");
    push_str(&mut r, "[source_control]\nkind = \"");
    push_str(&mut r, wizard.source_control_kind.key());
    push_str(&mut r, "\"\n");
    push_str(&mut r, "base_branch = \"main\"\n");
    push_str(&mut r, "merge_strategy = \"");
    push_str(&mut r, wizard.merge_strategy.key());
    push_str(&mut r, "\"\n");
    push_str(&mut r, "use_worktree = false\non_dirty_after_commit = \"warn\"\non_dirty_no_commits = \"fail\"\n\n");
    push_str(&mut r, "[agent]\nkind = \"");
    push_str(&mut r, wizard.agent_kind.key());
    push_str(&mut r, "\"\n");
    if let Some(f) = &wizard.settings_file {
        push_str(&mut r, "settings_file = ");
        let q = quoted(f.as_str());
        push_str(&mut r, q.as_str());
        push_str(&mut r, "\n");
    }
    push_str(&mut r, "\n[run]\nmax_iterations = 100\n");
    proof {
        assert(r@ =~= config_toml(wizard@));
    }
    r
}

} // verus!
