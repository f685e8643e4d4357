//! What the library learns about the repository it runs in.
use vstd::prelude::*;
use crate::text::{is_trimmed, lemma_trim_is_trimmed, trim, trim_str};
use crate::traits::{args_view, CommandRunner, Error};

verus! {

/// The repository slug in the reply of `gh repo view`: its output, trimmed,
/// or nothing when the command failed.
pub fn slug_of(reply: Result<String, Error>) -> (r: Option<String>)
    ensures
        match reply {
            Ok(out) => r matches Some(s) && s@ == trim(out@),
            Err(_) => r is None,
        },
{
    match reply {
        Ok(out) => Some(trim_str(out.as_str())),
        Err(_) => None,
    }
}

/// `gh --version`, which tells whether the GitHub CLI is installed.
pub open spec fn version_args() -> Seq<Seq<char>> {
    seq!["--version"@]
}

/// `gh repo view --json nameWithOwner --jq .nameWithOwner`.
pub open spec fn repo_view_args() -> Seq<Seq<char>> {
    seq!["repo"@, "view"@, "--json"@, "nameWithOwner"@, "--jq"@, ".nameWithOwner"@]
}

/// `r` is the slug in the reply of `gh repo view`: its output, trimmed, or
/// nothing when the command failed.
pub open spec fn slug_reply(reply: Result<String, Error>, r: Option<String>) -> bool {
    match reply {
        Ok(out) => r matches Some(s) && s@ == trim(out@),
        Err(_) => r is None,
    }
}

/// `r` is what asking `gh` for the slug through `runner` gives: nothing when
/// `gh --version` failed; else the slug in the reply of `gh repo view`.
pub open spec fn slug_detected<C: CommandRunner>(runner: &C, r: Option<String>) -> bool {
    exists|probe: Result<String, Error>| #[trigger]
        runner.ran("gh"@, version_args(), probe) && match probe {
            Err(_) => r is None,
            Ok(_) => exists|reply: Result<String, Error>| #[trigger]
                runner.ran("gh"@, repo_view_args(), reply) && slug_reply(reply, r),
        }
}

/// The `owner/repo` slug of the current repository, as the GitHub CLI reports
/// it; nothing when `gh` is not installed or the repository is unknown to it.
pub fn detect_repo_slug<C: CommandRunner>(runner: &C) -> (r: Option<String>)
    ensures
        r matches Some(s) ==> is_trimmed(s@),
        slug_detected(runner, r),
{
    let probe_args = ["--version"];
    let probe = runner.run("gh", &probe_args);
    assert(args_view(probe_args@) =~= version_args());
    assert(runner.ran("gh"@, version_args(), probe));
    if probe.is_err() {
        return None;
    }
    let view_args = ["repo", "view", "--json", "nameWithOwner", "--jq", ".nameWithOwner"];
    let reply = runner.run("gh", &view_args);
    assert(args_view(view_args@) =~= repo_view_args());
    assert(runner.ran("gh"@, repo_view_args(), reply));
    let r = slug_of(reply);
    proof {
        if r is Some {
            lemma_trim_is_trimmed(reply->Ok_0@);
        }
    }
    r
}

} // verus!
