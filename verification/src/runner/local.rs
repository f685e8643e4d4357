//! The local agent runner: a coding agent's command-line tool as a subprocess.
use vstd::prelude::*;
use crate::traits::{AgentOutput, AgentRunner, CommandRunner, Error, RunConfig};

verus! {

broadcast use {vstd::string::group_string_axioms, vstd::std_specs::vec::group_vec_axioms};

/// The arguments the agent's tool is given for `prompt`: print mode without
/// permission prompts, the settings file when there is one, then the prompt.
pub open spec fn agent_args_view(prompt: Seq<char>, settings: Option<Seq<char>>) -> Seq<Seq<char>> {
    let head = seq!["--print"@, "--dangerously-skip-permissions"@];
    let with_settings = match settings {
        Some(s) => head + seq!["--settings"@, s],
        None => head,
    };
    with_settings + seq!["-p"@, prompt]
}

/// What a run reports for the reply of the agent's command: its output and
/// success, or no output and failure when the command failed.
pub open spec fn agent_output_view(reply: Result<String, Error>) -> (Seq<char>, bool) {
    match reply {
        Ok(out) => (out@, true),
        Err(_) => (Seq::empty(), false),
    }
}

/// The text of a settings file path, when there is one.
pub open spec fn settings_view(settings: Option<String>) -> Option<Seq<char>> {
    match settings {
        Some(s) => Some(s@),
        None => None,
    }
}

/// The arguments the agent's tool is invoked with for `prompt`.
pub fn agent_args<'a>(prompt: &'a str, settings: Option<&'a str>) -> (r: Vec<&'a str>)
    ensures
        r@.map_values(|a: &str| a@) == agent_args_view(
            prompt@,
            match settings {
                Some(s) => Some(s@),
                None => None,
            },
        ),
{
    let mut args: Vec<&'a str> = Vec::new();
    args.push("--print");
    args.push("--dangerously-skip-permissions");
    if let Some(s) = settings {
        args.push("--settings");
        args.push(s);
    }
    args.push("-p");
    args.push(prompt);
    proof {
        reveal_strlit("--print");
        reveal_strlit("--dangerously-skip-permissions");
        reveal_strlit("--settings");
        reveal_strlit("-p");
        let expected = agent_args_view(
            prompt@,
            match settings {
                Some(s) => Some(s@),
                None => None,
            },
        );
        assert(args@.map_values(|a: &str| a@) =~= expected);
    }
    args
}

/// The output of a run whose agent command replied `reply`.
pub fn agent_output(reply: Result<String, Error>) -> (r: AgentOutput)
    ensures
        (r.stdout@, r.success) == agent_output_view(reply),
{
    match reply {
        Ok(stdout) => AgentOutput { stdout, success: true },
        Err(_) => AgentOutput { stdout: String::new(), success: false },
    }
}

/// Runs a coding agent as a local subprocess.
pub struct LocalRunner<C> {
    runner: C,
    /// The agent's command-line tool.
    program: String,
    /// Path to the agent's settings file passed via --settings.
    settings_file: Option<String>,
}

impl<C: CommandRunner> LocalRunner<C> {
    pub fn new(runner: C, program: String, settings_file: Option<String>) -> (r: Self)
        ensures
            r.runner() == runner,
            r.program() == program@,
            r.settings_file() == settings_file,
    {
        LocalRunner { runner, program, settings_file }
    }

    /// The agent's command-line tool.
    pub closed spec fn program(&self) -> Seq<char> {
        self.program@
    }

    /// The command runner the agent is invoked through.
    pub closed spec fn runner(&self) -> C {
        self.runner
    }

    /// The settings file the agent is given, if any.
    pub closed spec fn settings_file(&self) -> Option<String> {
        self.settings_file
    }
}

impl<C: CommandRunner> AgentRunner for LocalRunner<C> {
    /// A dry run succeeds with no output; otherwise the agent's tool is run
    /// with [`agent_args_view`], and the outcome is [`agent_output_view`] of
    /// what the command gave back.
    open spec fn ran(&self, prompt: Seq<char>, config: RunConfig, r: Result<AgentOutput, Error>) -> bool {
        if config.dry_run {
            r matches Ok(o) && o.stdout@ == Seq::<char>::empty() && o.success
        } else {
            exists|reply: Result<String, Error>| #[trigger]
                self.runner().ran(
                    self.program(),
                    agent_args_view(prompt, settings_view(self.settings_file())),
                    reply,
                ) && (r matches Ok(o) && (o.stdout@, o.success) == agent_output_view(reply))
        }
    }

    /// A dry run invokes nothing and succeeds with no output. Otherwise the
    /// agent's tool runs with [`agent_args`]; a failed command is an
    /// unsuccessful output, never an error.
    fn run(&self, prompt: &str, config: &RunConfig) -> (r: Result<AgentOutput, Error>)
        ensures
            r is Ok,
            config.dry_run ==> (r matches Ok(o) && o.stdout@ == Seq::<char>::empty() && o.success),
            r matches Ok(o) ==> (!o.success ==> o.stdout@ == Seq::<char>::empty()),
            !config.dry_run ==> exists|reply: Result<String, Error>| #[trigger]
                self.runner().ran(
                    self.program(),
                    agent_args_view(prompt@, settings_view(self.settings_file())),
                    reply,
                ) && (r matches Ok(o) && (o.stdout@, o.success) == agent_output_view(reply)),
    {
        if config.dry_run {
            return Ok(AgentOutput { stdout: String::new(), success: true });
        }
        let settings = match &self.settings_file {
            Some(s) => Some(s.as_str()),
            None => None,
        };
        let args = agent_args(prompt, settings);
        let reply = self.runner.run(self.program.as_str(), args.as_slice());
        assert(crate::traits::args_view(args@) =~= agent_args_view(prompt@, settings_view(self.settings_file())));
        assert(self.runner().ran(self.program(), agent_args_view(prompt@, settings_view(self.settings_file())), reply));
        Ok(agent_output(reply))
    }
}

} // verus!
