//! Dispatching a subcommand to its workflow.
use vstd::prelude::*;
use crate::behaviors::issue_ran;
use crate::cli::Command;
use crate::context::{Call, Context};
use crate::laws::{ended_by, run_laws};
use crate::traits::{
    AgentRunner, Error, EventSink, IssueTracker, JsonDecoder, PromptLoader, RemoteClient,
    SourceControl,
};
use crate::workflows::{clear_workflow, cleared, implement_workflow, review_ran, review_workflow};

verus! {

/// The first call a subcommand makes: `implement` and `review` ask the
/// tracker what kind of issue they are given, `clear` asks for the issues
/// with its label.
pub open spec fn starts_with(command: Command, c: Call) -> bool {
    match command {
        Command::Implement { issue_id, .. } => c matches Call::KindOf(id, _) && id == issue_id,
        Command::Review { issue_id, .. } => c matches Call::KindOf(id, _) && id == issue_id,
        Command::Clear { label, .. } => c matches Call::IssuesByLabel(l, _) && l == label@,
        Command::Init { .. } => false,
    }
}

/// What `run` gives back for a review that reported `found`: success
/// whatever the findings, or the review's error.
pub open spec fn review_done(found: Result<bool, Error>) -> Result<(), Error> {
    match found {
        Ok(_) => Ok(()),
        Err(e) => Err(e),
    }
}

/// Runs the workflow of `command` (any but `init`, which sets a repository
/// up before any context exists) in `ctx`: `implement` carries its issue
/// through, `clear` the issues of its label, `review` reviews its issue.
pub fn run<
    I: IssueTracker,
    S: SourceControl,
    R: RemoteClient,
    A: AgentRunner,
    E: EventSink,
    P: PromptLoader,
    J: JsonDecoder,
>(command: &Command, ctx: &mut Context<I, S, R, A, E, P, J>) -> (r: Result<(), Error>)
    requires
        !(command is Init),
    ensures
        r matches Err(e) ==> ended_by(final(ctx).log(), old(ctx).log().len() as int, e),
        final(ctx).extends(old(ctx)),
        final(ctx).log().len() > old(ctx).log().len(),
        starts_with(*command, final(ctx).log()[old(ctx).log().len() as int]),
        run_laws(
            final(ctx).log(),
            old(ctx).log().len() as int,
            final(ctx).log().len() as int,
            old(ctx).settings(),
        ),
        match *command {
            Command::Implement { issue_id, .. } => issue_ran(
                issue_id,
                old(ctx).settings().base_branch@,
                old(ctx).settings(),
                final(ctx).log(),
                old(ctx).log().len() as int,
                r,
            ),
            Command::Clear { label, .. } => cleared(
                label@,
                old(ctx).settings(),
                final(ctx).log(),
                old(ctx).log().len() as int,
                r,
            ),
            Command::Review { issue_id, .. } => exists|found: Result<bool, Error>| #[trigger]
                review_ran(
                    issue_id,
                    old(ctx).settings(),
                    old(ctx).spent(),
                    final(ctx).log(),
                    old(ctx).log().len() as int,
                    found,
                ) && r == review_done(found),
            Command::Init { .. } => true,
        },
{
    match command {
        Command::Implement { issue_id, .. } => implement_workflow(*issue_id, ctx),
        Command::Clear { label, .. } => clear_workflow(label.as_str(), ctx),
        Command::Review { issue_id, .. } => {
            let found = review_workflow(*issue_id, ctx);
            let ghost found_g = found;
            let r = match found {
                Ok(_) => Ok(()),
                Err(e) => Err(e),
            };
            assert(r == review_done(found_g));
            r
        },
        Command::Init { .. } => Ok(()),
    }
}

} // verus!
