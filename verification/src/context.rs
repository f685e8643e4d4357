//! The context of a run: its adapters, its settings and its agent budget.
//!
//! Every call that the library's actions make on an adapter goes through a
//! method of [`Context`], and the context keeps, as ghost state, the list of
//! those calls with what each one gave back. The contracts of the actions and
//! behaviors are statements about that list.
use vstd::prelude::*;
use crate::traits::{
    AgentOutput, AgentRunner, Error, Event, EventSink, Issue, IssueTracker, IssueType,
    JsonDecoder, PromptLoader, RemoteClient, RunConfig, SourceControl,
};

verus! {

/// One call made on an adapter, with its arguments and what it gave back.
pub enum Call {
    GetIssue(u64, Result<Issue, Error>),
    GetChildren(u64, Result<Vec<Issue>, Error>),
    IssuesByLabel(Seq<char>, Result<Vec<Issue>, Error>),
    Claim(u64, Result<(), Error>),
    Complete(u64, Result<(), Error>),
    Skip(u64, Result<(), Error>),
    KindOf(u64, Result<IssueType, Error>),
    CreateBranch(Seq<char>, Seq<char>, Result<(), Error>),
    CurrentBranch(Result<String, Error>),
    Diff(Seq<char>, Result<String, Error>),
    HasUncommitted(Result<bool, Error>),
    HasCommitsSince(Seq<char>, Result<bool, Error>),
    StageAll(Result<(), Error>),
    /// Staging the given paths.
    StagePaths(Seq<Seq<char>>, Result<(), Error>),
    Commit(Seq<char>, Result<(), Error>),
    CreatePr(Seq<char>, Seq<char>, Seq<char>, Result<String, Error>),
    /// A comment posted on an issue.
    Comment(u64, Seq<char>, Result<(), Error>),
    /// A child issue created under a parent, with its title and body.
    CreateChild(u64, Seq<char>, Seq<char>, Result<Issue, Error>),
    Emit(Event),
    LoadPrompt(Seq<char>, Result<String, Error>),
    RunAgent(Seq<char>, Result<AgentOutput, Error>),
    /// An invocation on the prompt that the budget refused; nothing ran.
    AgentRefused(Seq<char>),
    DecodePlan(Seq<char>, Result<Vec<u64>, String>),
}

/// The number of agent invocations among `calls`.
pub open spec fn agent_runs(calls: Seq<Call>) -> nat
    decreases calls.len(),
{
    if calls.len() == 0 {
        0
    } else {
        agent_runs(calls.drop_last()) + if calls.last() is RunAgent {
            1nat
        } else {
            0nat
        }
    }
}

/// Recording one more call counts one more invocation exactly when it is one.
pub proof fn lemma_agent_runs_push(calls: Seq<Call>, c: Call)
    ensures
        agent_runs(calls.push(c)) == agent_runs(calls) + if c is RunAgent {
            1nat
        } else {
            0nat
        },
{
    assert(calls.push(c).drop_last() =~= calls);
}

/// A log that extends `a` counts at least as many agent runs, and where it
/// counts no more, none of the calls it adds is an agent run.
pub proof fn lemma_agent_runs_extend(a: Seq<Call>, b: Seq<Call>)
    requires
        a.len() <= b.len(),
        forall|i: int| 0 <= i < a.len() ==> #[trigger] b[i] == a[i],
    ensures
        agent_runs(a) <= agent_runs(b),
        agent_runs(a) == agent_runs(b) ==> forall|k: int|
            a.len() <= k < b.len() ==> !(#[trigger] b[k] is RunAgent),
    decreases b.len(),
{
    if b.len() > a.len() {
        let c = b.drop_last();
        assert forall|i: int| 0 <= i < a.len() implies #[trigger] c[i] == a[i] by {
            assert(c[i] == b[i]);
        }
        lemma_agent_runs_extend(a, c);
        if agent_runs(a) == agent_runs(b) {
            assert forall|k: int| a.len() <= k < b.len() implies !(#[trigger] b[k] is RunAgent) by {
                if k < c.len() {
                    assert(b[k] == c[k]);
                }
            }
        }
    } else {
        assert(a =~= b);
    }
}

/// The invocations used after one more request to run the agent, with `spent`
/// used before and a budget of `max`: a request within budget runs the agent,
/// one beyond it is refused.
pub open spec fn budget_step(spent: nat, max: nat) -> nat {
    if spent < max {
        spent + 1
    } else {
        spent
    }
}

/// The call `c` is what the adapter it went to may have answered (see each
/// adapter's hook): the agent runs through the agent runner with the run's
/// settings `cfg`; an invocation the budget refused reaches no adapter.
pub open spec fn call_accounted<
    I: IssueTracker,
    S: SourceControl,
    R: RemoteClient,
    A: AgentRunner,
    E: EventSink,
    P: PromptLoader,
    J: JsonDecoder,
>(issues: I, source_control: S, remote: R, agent: A, events: E, prompts: P, json: J, cfg: RunConfig, c: Call) -> bool {
    match c {
        Call::GetIssue(..) | Call::GetChildren(..) | Call::IssuesByLabel(..) | Call::Claim(..)
        | Call::Complete(..) | Call::Skip(..) | Call::KindOf(..) | Call::Comment(..)
        | Call::CreateChild(..) => issues.handled(c),
        Call::CreateBranch(..) | Call::CurrentBranch(..) | Call::Diff(..) | Call::HasUncommitted(..)
        | Call::HasCommitsSince(..) | Call::StageAll(..) | Call::StagePaths(..) | Call::Commit(..) => source_control.handled(c),
        Call::CreatePr(..) => remote.handled(c),
        Call::Emit(..) => events.handled(c),
        Call::LoadPrompt(..) => prompts.handled(c),
        Call::RunAgent(prompt, r) => agent.ran(prompt, cfg, r),
        Call::AgentRefused(_) => true,
        Call::DecodePlan(text, r) => json.decodes_plan(text, r),
    }
}

/// The law of the budget over a run: `used[k]` is what `iterations_used`
/// gives after `k` requests to run the agent on a fresh context (whose count
/// starts at 0, and which each request moves by one [`budget_step`], whether
/// the agent succeeded or not). After `k` requests it is `min(k, max)`, and
/// it never passes `max`.
pub proof fn lemma_iterations_used(used: Seq<nat>, max: nat)
    requires
        used.len() >= 1,
        used[0] == 0,
        forall|i: int| 0 <= i < used.len() - 1 ==> #[trigger] used[i + 1] == budget_step(used[i], max),
    ensures
        forall|k: int| 0 <= k < used.len() ==> #[trigger] used[k] == if k < max {
            k
        } else {
            max as int
        },
    decreases used.len(),
{
    if used.len() > 1 {
        let prefix = used.drop_last();
        assert forall|i: int| 0 <= i < prefix.len() - 1 implies #[trigger] prefix[i + 1] == budget_step(prefix[i], max) by {
            assert(prefix[i + 1] == used[i + 1]);
            assert(prefix[i] == used[i]);
        }
        lemma_iterations_used(prefix, max);
        assert forall|k: int| 0 <= k < used.len() implies #[trigger] used[k] == if k < max {
            k
        } else {
            max as int
        } by {
            if k < used.len() - 1 {
                assert(used[k] == prefix[k]);
            } else {
                let j = k - 1;
                assert(prefix[j] == used[j]);
                assert(used[j + 1] == budget_step(used[j], max));
            }
        }
    }
}

/// The budget of a run: the invocations used so far and the calls made.
struct Budget {
    used: u32,
    calls: Ghost<Seq<Call>>,
}

/// Everything a run needs: the adapters, the settings, and the count of
/// agent invocations made so far, which never passes `config.max_iterations`.
pub struct Context<
    I: IssueTracker,
    S: SourceControl,
    R: RemoteClient,
    A: AgentRunner,
    E: EventSink,
    P: PromptLoader,
    J: JsonDecoder,
> {
    issues: I,
    source_control: S,
    remote: R,
    events: E,
    prompts: P,
    json: J,
    config: RunConfig,
    runner: A,
    budget: Budget,
}

impl<
    I: IssueTracker,
    S: SourceControl,
    R: RemoteClient,
    A: AgentRunner,
    E: EventSink,
    P: PromptLoader,
    J: JsonDecoder,
> Context<I, S, R, A, E, P, J> {
    /// The run never uses more invocations than its budget, it counts every
    /// invocation it makes, and every call of its log is what the adapter it
    /// went to may have answered.
    #[verifier::type_invariant]
    closed spec fn within_budget(&self) -> bool {
        &&& self.budget.used <= self.config.max_iterations
        &&& self.budget.used == agent_runs(self.budget.calls@)
        &&& forall|i: int|
            0 <= i < self.budget.calls@.len() ==> #[trigger] call_accounted(
                self.issues,
                self.source_control,
                self.remote,
                self.runner,
                self.events,
                self.prompts,
                self.json,
                self.config,
                self.budget.calls@[i],
            )
    }

    /// The calls made through this context so far, oldest first.
    pub closed spec fn log(&self) -> Seq<Call> {
        self.budget.calls@
    }


    /// The number of agent invocations made so far.
    pub closed spec fn spent(&self) -> nat {
        agent_runs(self.budget.calls@)
    }

    /// The invocations spent are the agent runs in the log.
    pub proof fn lemma_spent_counts(&self)
        ensures
            self.spent() == agent_runs(self.log()),
    {
    }

    /// The settings of the run.
    pub closed spec fn settings(&self) -> RunConfig {
        self.config
    }

    /// The issue tracker of the run.
    pub closed spec fn issue_tracker(&self) -> I {
        self.issues
    }

    /// The source control of the run.
    pub closed spec fn source_control(&self) -> S {
        self.source_control
    }

    /// Where the run opens pull requests.
    pub closed spec fn remote(&self) -> R {
        self.remote
    }

    /// The agent runner of the run.
    pub closed spec fn agent(&self) -> A {
        self.runner
    }

    /// Where the run reports its progress.
    pub closed spec fn event_sink(&self) -> E {
        self.events
    }

    /// Where the run reads its prompt templates.
    pub closed spec fn prompt_loader(&self) -> P {
        self.prompts
    }

    /// The decoder of the agent's plans.
    pub closed spec fn decoder(&self) -> J {
        self.json
    }

    /// Invocations left before the budget is exhausted.
    pub open spec fn budget_left(&self) -> nat {
        if self.spent() < self.settings().max_iterations {
            (self.settings().max_iterations - self.spent()) as nat
        } else {
            0
        }
    }

    /// `self` and `before` hold the same adapters.
    pub open spec fn same_adapters(&self, before: &Self) -> bool {
        &&& self.issue_tracker() == before.issue_tracker()
        &&& self.source_control() == before.source_control()
        &&& self.remote() == before.remote()
        &&& self.agent() == before.agent()
        &&& self.event_sink() == before.event_sink()
        &&& self.prompt_loader() == before.prompt_loader()
        &&& self.decoder() == before.decoder()
    }

    /// `self` is `before` after the single call `c`, which used no budget.
    pub open spec fn after_call(&self, before: &Self, c: Call) -> bool {
        &&& self.log() == before.log().push(c)
        &&& self.spent() == before.spent()
        &&& self.settings() == before.settings()
        &&& self.same_adapters(before)
        &&& self.accounted_log()
    }

    /// `self` is `before` after some calls: the log only grew, the budget
    /// was only spent, and the settings and the adapters stayed.
    pub open spec fn extends(&self, before: &Self) -> bool {
        &&& before.log().len() <= self.log().len()
        &&& forall|i: int| 0 <= i < before.log().len() ==> #[trigger] self.log()[i] == before.log()[i]
        &&& before.spent() <= self.spent()
        &&& self.settings() == before.settings()
        &&& self.same_adapters(before)
        &&& before.accounted_log() ==> self.accounted_log()
    }

    /// The calls made since `before`.
    pub open spec fn calls_since(&self, before: &Self) -> Seq<Call> {
        self.log().subrange(before.log().len() as int, self.log().len() as int)
    }
}

impl<
    I: IssueTracker,
    S: SourceControl,
    R: RemoteClient,
    A: AgentRunner,
    E: EventSink,
    P: PromptLoader,
    J: JsonDecoder,
> Context<I, S, R, A, E, P, J> {
    /// The call `c` is what the adapter it went to may have answered (see
    /// [`call_accounted`]).
    pub open spec fn accounted(&self, c: Call) -> bool {
        call_accounted(
            self.issue_tracker(),
            self.source_control(),
            self.remote(),
            self.agent(),
            self.event_sink(),
            self.prompt_loader(),
            self.decoder(),
            self.settings(),
            c,
        )
    }

    /// Every call of the log is what the adapter it went to may have
    /// answered: the log speaks of the outside world only through the
    /// adapters' hooks.
    pub open spec fn accounted_log(&self) -> bool {
        forall|i: int| 0 <= i < self.log().len() ==> #[trigger] self.accounted(self.log()[i])
    }

    pub fn new(
        issues: I,
        source_control: S,
        remote: R,
        runner: A,
        events: E,
        prompts: P,
        json: J,
        config: RunConfig,
    ) -> (ctx: Self)
        ensures
            ctx.log() == Seq::<Call>::empty(),
            ctx.spent() == 0,
            ctx.settings() == config,
            ctx.issue_tracker() == issues,
            ctx.source_control() == source_control,
            ctx.remote() == remote,
            ctx.agent() == runner,
            ctx.event_sink() == events,
            ctx.prompt_loader() == prompts,
            ctx.decoder() == json,
            ctx.accounted_log(),
    {
        Context {
            issues,
            source_control,
            remote,
            events,
            prompts,
            json,
            config,
            runner,
            budget: Budget { used: 0, calls: Ghost(Seq::empty()) },
        }
    }

    /// Runs the agent on `prompt` if the budget allows another invocation;
    /// else fails with [`Error::BudgetExhausted`] and runs nothing.
    pub fn run_agent(&mut self, prompt: &str) -> (r: Result<AgentOutput, Error>)
        ensures
            final(self).accounted_log(),
            old(self).spent() >= old(self).settings().max_iterations ==> {
                &&& r matches Err(Error::BudgetExhausted)
                &&& final(self).after_call(old(self), Call::AgentRefused(prompt@))
            },
            final(self).spent() == budget_step(old(self).spent(), old(self).settings().max_iterations as nat),
            old(self).spent() < old(self).settings().max_iterations ==> {
                &&& final(self).log() == old(self).log().push(Call::RunAgent(prompt@, r))
                &&& final(self).spent() == old(self).spent() + 1
                &&& final(self).settings() == old(self).settings()
                &&& old(self).agent().ran(prompt@, old(self).settings(), r)
            },
            final(self).same_adapters(old(self)),
    {
        proof {
            use_type_invariant(&*self);
        }
        if self.budget.used >= self.config.max_iterations {
            self.record(Ghost(Call::AgentRefused(prompt@)));
            return Err(Error::BudgetExhausted);
        }
        let r = self.runner.run(prompt, &self.config);
        proof {
            lemma_agent_runs_push(self.budget.calls@, Call::RunAgent(prompt@, r));
        }
        let ghost calls = self.budget.calls@.push(Call::RunAgent(prompt@, r));
        proof {
            assert forall|i: int| 0 <= i < calls.len() implies #[trigger] self.accounted(calls[i]) by {
                if i < self.budget.calls@.len() {
                    assert(calls[i] == self.budget.calls@[i]);
                }
            }
        }
        self.budget = Budget { used: self.budget.used + 1, calls: Ghost(calls) };
        proof {
            use_type_invariant(&*self);
        }
        r
    }

    /// Logs the call `c`, which is no agent invocation.
    fn record(&mut self, c: Ghost<Call>)
        requires
            !(c@ is RunAgent),
            old(self).accounted(c@),
        ensures
            final(self).after_call(old(self), c@),
    {
        proof {
            use_type_invariant(&*self);
            lemma_agent_runs_push(self.budget.calls@, c@);
        }
        let ghost calls = self.budget.calls@.push(c@);
        proof {
            assert forall|i: int| 0 <= i < calls.len() implies #[trigger] self.accounted(calls[i]) by {
                if i < self.budget.calls@.len() {
                    assert(calls[i] == self.budget.calls@[i]);
                }
            }
        }
        self.budget = Budget { used: self.budget.used, calls: Ghost(calls) };
        proof {
            use_type_invariant(&*self);
        }
    }

    /// The settings of the run.
    pub fn config(&self) -> (r: &RunConfig)
        ensures
            *r == self.settings(),
    {
        &self.config
    }

    /// The number of agent invocations made so far. A run never invokes the
    /// agent more often than `max_iterations`, and this count is the number of
    /// invocations in the log.
    pub fn iterations_used(&self) -> (n: u32)
        ensures
            n == self.spent(),
            n <= self.settings().max_iterations,
            n == agent_runs(self.log()),
    {
        proof {
            use_type_invariant(self);
        }
        self.budget.used
    }

    pub fn get_issue(&mut self, id: u64) -> (r: Result<Issue, Error>)
        ensures
            final(self).after_call(old(self), Call::GetIssue(id, r)),
            old(self).issue_tracker().handled(Call::GetIssue(id, r)),
    {
        let r = self.issues.get_issue(id);
        self.record(Ghost(Call::GetIssue(id, r)));
        r
    }

    pub fn get_children(&mut self, id: u64) -> (r: Result<Vec<Issue>, Error>)
        ensures
            final(self).after_call(old(self), Call::GetChildren(id, r)),
            old(self).issue_tracker().handled(Call::GetChildren(id, r)),
    {
        let r = self.issues.get_children(id);
        self.record(Ghost(Call::GetChildren(id, r)));
        r
    }

    pub fn get_issues_by_label(&mut self, label: &str) -> (r: Result<Vec<Issue>, Error>)
        ensures
            final(self).after_call(old(self), Call::IssuesByLabel(label@, r)),
            old(self).issue_tracker().handled(Call::IssuesByLabel(label@, r)),
    {
        let r = self.issues.get_issues_by_label(label);
        self.record(Ghost(Call::IssuesByLabel(label@, r)));
        r
    }

    pub fn claim_issue(&mut self, id: u64) -> (r: Result<(), Error>)
        ensures
            final(self).after_call(old(self), Call::Claim(id, r)),
            old(self).issue_tracker().handled(Call::Claim(id, r)),
    {
        let r = self.issues.claim_issue(id);
        self.record(Ghost(Call::Claim(id, r)));
        r
    }

    pub fn complete_issue(&mut self, id: u64) -> (r: Result<(), Error>)
        ensures
            final(self).after_call(old(self), Call::Complete(id, r)),
            old(self).issue_tracker().handled(Call::Complete(id, r)),
    {
        let r = self.issues.complete_issue(id);
        self.record(Ghost(Call::Complete(id, r)));
        r
    }

    pub fn skip_issue(&mut self, id: u64) -> (r: Result<(), Error>)
        ensures
            final(self).after_call(old(self), Call::Skip(id, r)),
            old(self).issue_tracker().handled(Call::Skip(id, r)),
    {
        let r = self.issues.skip_issue(id);
        self.record(Ghost(Call::Skip(id, r)));
        r
    }

    pub fn issue_type(&mut self, id: u64) -> (r: Result<IssueType, Error>)
        ensures
            final(self).after_call(old(self), Call::KindOf(id, r)),
            old(self).issue_tracker().handled(Call::KindOf(id, r)),
    {
        let r = self.issues.issue_type(id);
        self.record(Ghost(Call::KindOf(id, r)));
        r
    }

    pub fn create_branch(&mut self, name: &str, from: &str) -> (r: Result<(), Error>)
        ensures
            final(self).after_call(old(self), Call::CreateBranch(name@, from@, r)),
            old(self).source_control().handled(Call::CreateBranch(name@, from@, r)),
    {
        let r = self.source_control.create_branch(name, from);
        self.record(Ghost(Call::CreateBranch(name@, from@, r)));
        r
    }

    pub fn current_branch(&mut self) -> (r: Result<String, Error>)
        ensures
            final(self).after_call(old(self), Call::CurrentBranch(r)),
            old(self).source_control().handled(Call::CurrentBranch(r)),
    {
        let r = self.source_control.current_branch();
        self.record(Ghost(Call::CurrentBranch(r)));
        r
    }

    pub fn diff_from_base(&mut self, base: &str) -> (r: Result<String, Error>)
        ensures
            final(self).after_call(old(self), Call::Diff(base@, r)),
            old(self).source_control().handled(Call::Diff(base@, r)),
    {
        let r = self.source_control.diff_from_base(base);
        self.record(Ghost(Call::Diff(base@, r)));
        r
    }

    pub fn has_uncommitted_changes(&mut self) -> (r: Result<bool, Error>)
        ensures
            final(self).after_call(old(self), Call::HasUncommitted(r)),
            old(self).source_control().handled(Call::HasUncommitted(r)),
    {
        let r = self.source_control.has_uncommitted_changes();
        self.record(Ghost(Call::HasUncommitted(r)));
        r
    }

    pub fn has_commits_since(&mut self, base: &str) -> (r: Result<bool, Error>)
        ensures
            final(self).after_call(old(self), Call::HasCommitsSince(base@, r)),
            old(self).source_control().handled(Call::HasCommitsSince(base@, r)),
    {
        let r = self.source_control.has_commits_since(base);
        self.record(Ghost(Call::HasCommitsSince(base@, r)));
        r
    }

    /// Stages every change of the working tree.
    pub fn stage_all(&mut self) -> (r: Result<(), Error>)
        ensures
            final(self).after_call(old(self), Call::StageAll(r)),
            old(self).source_control().handled(Call::StageAll(r)),
    {
        let r = self.source_control.stage(None);
        self.record(Ghost(Call::StageAll(r)));
        r
    }

    pub fn commit(&mut self, message: &str) -> (r: Result<(), Error>)
        ensures
            final(self).after_call(old(self), Call::Commit(message@, r)),
            old(self).source_control().handled(Call::Commit(message@, r)),
    {
        let r = self.source_control.commit(message);
        self.record(Ghost(Call::Commit(message@, r)));
        r
    }

    pub fn create_pr(&mut self, title: &str, body: &str, branch: &str) -> (r: Result<String, Error>)
        ensures
            final(self).after_call(old(self), Call::CreatePr(title@, body@, branch@, r)),
            old(self).remote().handled(Call::CreatePr(title@, body@, branch@, r)),
    {
        let r = self.remote.create_pr(title, body, branch);
        self.record(Ghost(Call::CreatePr(title@, body@, branch@, r)));
        r
    }

    pub fn emit(&mut self, event: Event)
        ensures
            final(self).after_call(old(self), Call::Emit(event)),
            old(self).event_sink().handled(Call::Emit(event)),
    {
        let ghost e = event;
        self.events.emit(event);
        self.record(Ghost(Call::Emit(e)));
    }

    pub fn load_prompt_template(&mut self, name: &str) -> (r: Result<String, Error>)
        ensures
            final(self).after_call(old(self), Call::LoadPrompt(name@, r)),
            old(self).prompt_loader().handled(Call::LoadPrompt(name@, r)),
    {
        let r = self.prompts.load(name);
        self.record(Ghost(Call::LoadPrompt(name@, r)));
        r
    }

    pub fn decode_plan(&mut self, text: &str) -> (r: Result<Vec<u64>, String>)
        ensures
            final(self).after_call(old(self), Call::DecodePlan(text@, r)),
            old(self).decoder().decodes_plan(text@, r),
    {
        let r = self.json.decode_plan(text);
        self.record(Ghost(Call::DecodePlan(text@, r)));
        r
    }
}

} // verus!
