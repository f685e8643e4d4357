//! The git adapter: source control through the `git` command.
use vstd::prelude::*;
use crate::text::{
    decimal, is_trimmed, is_whitespace, lemma_decimal_digits, lemma_parse_decimal, lemma_trim_end,
    lemma_trim_is_trimmed, lemma_trim_start, parse_u64, parse_u64_str, push_str, trim, trim_end,
    trim_start, trim_str,
};
use crate::context::Call;
use crate::traits::{args_view, paths_view, trimmed_reply, unit_of, CommandRunner, Error, SourceControl};

verus! {

broadcast use vstd::string::group_string_axioms;

/// `base...HEAD`: what `HEAD` has that the base branch does not, as a diff range.
pub open spec fn diff_range(base: Seq<char>) -> Seq<char> {
    base + "...HEAD"@
}

/// `base..HEAD`: the commits on `HEAD` that the base branch does not have.
pub open spec fn commit_range(base: Seq<char>) -> Seq<char> {
    base + "..HEAD"@
}

/// What `git status --porcelain` printing `out` means: changes are pending
/// when it printed anything but whitespace.
pub open spec fn has_changes(out: Seq<char>) -> bool {
    trim(out).len() > 0
}

/// What `git rev-list --count` printing `out` means: new commits exist when
/// the count is above zero; output that is no count is an error.
pub open spec fn commits_reply(out: Seq<char>, r: Result<bool, Error>) -> bool {
    match parse_u64(trim(out)) {
        Some(n) => r == Ok::<bool, Error>(n > 0),
        None => r matches Err(Error::InvalidCount(t)) && t@ == trim(out),
    }
}

/// `git switch -c <name> <from>`.
pub open spec fn switch_args(name: Seq<char>, from: Seq<char>) -> Seq<Seq<char>> {
    seq!["switch"@, "-c"@, name, from]
}

/// `git rev-parse --abbrev-ref HEAD`.
pub open spec fn branch_args() -> Seq<Seq<char>> {
    seq!["rev-parse"@, "--abbrev-ref"@, "HEAD"@]
}

/// `git diff <base>...HEAD`.
pub open spec fn diff_args(base: Seq<char>) -> Seq<Seq<char>> {
    seq!["diff"@, diff_range(base)]
}

/// `git status --porcelain`.
pub open spec fn status_args() -> Seq<Seq<char>> {
    seq!["status"@, "--porcelain"@]
}

/// `git rev-list --count <base>..HEAD`.
pub open spec fn count_args(base: Seq<char>) -> Seq<Seq<char>> {
    seq!["rev-list"@, "--count"@, commit_range(base)]
}

/// `git commit -m <message>`.
pub open spec fn commit_args(message: Seq<char>) -> Seq<Seq<char>> {
    seq!["commit"@, "-m"@, message]
}

/// The arguments of `git add`: `-A` for all changes, else the paths given.
pub open spec fn stage_args(paths: Option<Seq<Seq<char>>>) -> Seq<Seq<char>> {
    match paths {
        None => seq!["add"@, "-A"@],
        Some(p) => seq!["add"@] + p,
    }
}


/// Whether `git status --porcelain` printing `out` reports pending changes.
pub fn status_has_changes(out: &str) -> (r: bool)
    ensures
        r == has_changes(out@),
{
    let t = trim_str(out);
    !t.as_str().is_empty()
}

/// The meaning of the output of `git rev-list --count`.
pub fn parse_commit_count(out: &str) -> (r: Result<bool, Error>)
    ensures
        commits_reply(out@, r),
{
    let t = trim_str(out);
    match parse_u64_str(t.as_str()) {
        Some(n) => Ok(n > 0),
        None => Err(Error::InvalidCount(t)),
    }
}

fn range_arg(base: &str, suffix: &str) -> (r: String)
    ensures
        r@ == base@ + suffix@,
{
    let mut r = String::new();
    push_str(&mut r, base);
    push_str(&mut r, suffix);
    r
}

/// A character that is not whitespace survives `trim_start`.
proof fn lemma_trim_start_keeps(s: Seq<char>, i: int)
    requires
        0 <= i < s.len(),
        !is_whitespace(s[i]),
    ensures
        trim_start(s).len() >= s.len() - i,
    decreases s.len(),
{
    if s.len() > 0 && is_whitespace(s[0]) {
        assert(s.drop_first()[i - 1] == s[i]);
        lemma_trim_start_keeps(s.drop_first(), i - 1);
    }
}

/// `git status --porcelain` reports pending changes exactly when it printed
/// some character that is not whitespace; an empty or blank output means a
/// clean tree.
pub proof fn lemma_changes_when_printed(out: Seq<char>)
    ensures
        has_changes(out) == exists|i: int| 0 <= i < out.len() && !is_whitespace(#[trigger] out[i]),
{
    lemma_trim_start(out);
    let t = trim_start(out);
    lemma_trim_end(t);
    if has_changes(out) {
        let k = out.len() - t.len();
        assert(trim(out)[0] == t[0]);
        assert(t[0] == out[k]);
        assert(!is_whitespace(out[k]));
    }
    if exists|i: int| 0 <= i < out.len() && !is_whitespace(#[trigger] out[i]) {
        let i = choose|i: int| 0 <= i < out.len() && !is_whitespace(#[trigger] out[i]);
        lemma_trim_start_keeps(out, i);
    }
}

/// When `git rev-list --count` printed the count `n` (with whatever
/// whitespace around it), new commits exist exactly when `n` is above zero.
pub proof fn lemma_commits_when_counted_above_zero(n: u64, r: Result<bool, Error>)
    ensures
        commits_reply(decimal(n as nat), r) == (r == Ok::<bool, Error>(n > 0)),
{
    let d = decimal(n as nat);
    lemma_decimal_digits(n as nat);
    lemma_parse_decimal(n);
    assert(crate::text::is_digit(d[0]));
    assert(trim_start(d) == d);
    assert(crate::text::is_digit(d.last()));
    assert(trim_end(d) == d);
    assert(trim(d) == d);
}

/// What `current_branch` gives back is the name of the checked-out branch:
/// the output of `git rev-parse --abbrev-ref HEAD`, trimmed, or the error of
/// that command. (`git rev-parse HEAD` would give a commit instead.)
pub proof fn lemma_current_branch_names_the_branch<C: CommandRunner>(
    git: GitClient<C>,
    r: Result<String, Error>,
)
    requires
        git.handled(Call::CurrentBranch(r)),
    ensures
        exists|args: Seq<Seq<char>>, reply: Result<String, Error>|
            #[trigger] git.runner().ran("git"@, args, reply) && args == seq![
                "rev-parse"@,
                "--abbrev-ref"@,
                "HEAD"@,
            ] && match reply {
                Ok(out) => r matches Ok(b) && b@ == trim(out@),
                Err(e) => r == Err::<String, Error>(e),
            },
{
    let reply = choose|reply: Result<String, Error>|
        #[trigger] git.runner().ran("git"@, branch_args(), reply) && trimmed_reply(reply, r);
    assert(git.runner().ran("git"@, branch_args(), reply));
}

/// Staging, committing, diffing and counting run the `git` commands their
/// names say, with the arguments they are given in the places git reads them.
pub proof fn lemma_git_commands(name: Seq<char>, from: Seq<char>, base: Seq<char>, message: Seq<char>, paths: Seq<Seq<char>>)
    ensures
        switch_args(name, from) == seq!["switch"@, "-c"@, name, from],
        diff_args(base) == seq!["diff"@, base + "...HEAD"@],
        status_args() == seq!["status"@, "--porcelain"@],
        count_args(base) == seq!["rev-list"@, "--count"@, base + "..HEAD"@],
        commit_args(message) == seq!["commit"@, "-m"@, message],
        stage_args(None) == seq!["add"@, "-A"@],
        stage_args(Some(paths)) == seq!["add"@] + paths,
{
}

/// Source control through the `git` command.
pub struct GitClient<C> {
    runner: C,
}

impl<C: CommandRunner> GitClient<C> {
    pub fn new(runner: C) -> (r: Self)
        ensures
            r.runner() == runner,
    {
        GitClient { runner }
    }

    /// The command runner the client calls `git` through.
    pub closed spec fn runner(&self) -> C {
        self.runner
    }

    /// `r` is what `git switch -c <name> <from>` gave back, run for its effect.
    pub open spec fn switched(&self, name: Seq<char>, from: Seq<char>, r: Result<(), Error>) -> bool {
        exists|reply: Result<String, Error>|
            #[trigger] self.runner().ran("git"@, switch_args(name, from), reply) && r == unit_of(reply)
    }

    /// `r` is the branch `git rev-parse --abbrev-ref HEAD` printed, trimmed, or its error.
    pub open spec fn branch_read(&self, r: Result<String, Error>) -> bool {
        exists|reply: Result<String, Error>|
            #[trigger] self.runner().ran("git"@, branch_args(), reply) && trimmed_reply(reply, r)
    }

    /// `r` is what `git diff <base>...HEAD` gave back.
    pub open spec fn diffed(&self, base: Seq<char>, r: Result<String, Error>) -> bool {
        self.runner().ran("git"@, diff_args(base), r)
    }

    /// `r` tells whether `git status --porcelain` reported changes, or is its error.
    pub open spec fn status_read(&self, r: Result<bool, Error>) -> bool {
        exists|reply: Result<String, Error>|
            #[trigger] self.runner().ran("git"@, status_args(), reply) && match reply {
                Ok(out) => r == Ok::<bool, Error>(has_changes(out@)),
                Err(e) => r == Err::<bool, Error>(e),
            }
    }

    /// `r` is what the count printed by `git rev-list --count <base>..HEAD`
    /// means, or its error.
    pub open spec fn commits_counted(&self, base: Seq<char>, r: Result<bool, Error>) -> bool {
        exists|reply: Result<String, Error>|
            #[trigger] self.runner().ran("git"@, count_args(base), reply) && match reply {
                Ok(out) => commits_reply(out@, r),
                Err(e) => r == Err::<bool, Error>(e),
            }
    }

    /// `r` is what `git add` (of everything, or of `paths`) gave back.
    pub open spec fn staged(&self, paths: Option<Seq<Seq<char>>>, r: Result<(), Error>) -> bool {
        exists|reply: Result<String, Error>|
            #[trigger] self.runner().ran("git"@, stage_args(paths), reply) && r == unit_of(reply)
    }

    /// `r` is what `git commit -m <message>` gave back.
    pub open spec fn committed(&self, message: Seq<char>, r: Result<(), Error>) -> bool {
        exists|reply: Result<String, Error>|
            #[trigger] self.runner().ran("git"@, commit_args(message), reply) && r == unit_of(reply)
    }
}

impl<C: CommandRunner> SourceControl for GitClient<C> {
    /// Each call runs the `git` command that its method names, and its reply
    /// follows from what the command gave back.
    open spec fn handled(&self, call: Call) -> bool {
        match call {
            Call::CreateBranch(name, from, r) => self.switched(name, from, r),
            Call::CurrentBranch(r) => self.branch_read(r),
            Call::Diff(base, r) => self.diffed(base, r),
            Call::HasUncommitted(r) => self.status_read(r),
            Call::HasCommitsSince(base, r) => self.commits_counted(base, r),
            Call::StageAll(r) => self.staged(None, r),
            Call::StagePaths(paths, r) => self.staged(Some(paths), r),
            Call::Commit(message, r) => self.committed(message, r),
            _ => true,
        }
    }

    /// `git switch -c <name> <from>`.
    fn create_branch(&self, name: &str, from: &str) -> (r: Result<(), Error>)
        ensures
            self.switched(name@, from@, r),
    {
        let args = ["switch", "-c", name, from];
        let reply = self.runner.run("git", &args);
        assert(args_view(args@) =~= switch_args(name@, from@));
        assert(self.runner().ran("git"@, switch_args(name@, from@), reply));
        match reply {
            Ok(_) => Ok(()),
            Err(e) => Err(e),
        }
    }

    /// `git rev-parse --abbrev-ref HEAD`, trimmed.
    fn current_branch(&self) -> (r: Result<String, Error>)
        ensures
            r matches Ok(b) ==> is_trimmed(b@),
            self.branch_read(r),
            exists|args: Seq<Seq<char>>, reply: Result<String, Error>|
                #[trigger] self.runner().ran("git"@, args, reply) && args == seq![
                    "rev-parse"@,
                    "--abbrev-ref"@,
                    "HEAD"@,
                ] && trimmed_reply(reply, r),
    {
        let args = ["rev-parse", "--abbrev-ref", "HEAD"];
        let reply = self.runner.run("git", &args);
        assert(args_view(args@) =~= branch_args());
        assert(self.runner().ran("git"@, branch_args(), reply));
        match reply {
            Ok(out) => {
                proof {
                    lemma_trim_is_trimmed(out@);
                }
                Ok(trim_str(out.as_str()))
            },
            Err(e) => Err(e),
        }
    }

    /// `git diff <base>...HEAD`.
    fn diff_from_base(&self, base: &str) -> (r: Result<String, Error>)
        ensures
            self.diffed(base@, r),
    {
        let range = range_arg(base, "...HEAD");
        let args = ["diff", range.as_str()];
        let reply = self.runner.run("git", &args);
        assert(args_view(args@) =~= diff_args(base@));
        reply
    }

    /// `git status --porcelain`: changes are pending when it prints anything.
    fn has_uncommitted_changes(&self) -> (r: Result<bool, Error>)
        ensures
            self.status_read(r),
    {
        let args = ["status", "--porcelain"];
        let reply = self.runner.run("git", &args);
        assert(args_view(args@) =~= status_args());
        assert(self.runner().ran("git"@, status_args(), reply));
        match reply {
            Ok(out) => Ok(status_has_changes(out.as_str())),
            Err(e) => Err(e),
        }
    }

    /// `git rev-list --count <base>..HEAD`: new commits exist when the count is above zero.
    fn has_commits_since(&self, base: &str) -> (r: Result<bool, Error>)
        ensures
            self.commits_counted(base@, r),
    {
        let range = range_arg(base, "..HEAD");
        let args = ["rev-list", "--count", range.as_str()];
        let reply = self.runner.run("git", &args);
        assert(args_view(args@) =~= count_args(base@));
        assert(self.runner().ran("git"@, count_args(base@), reply));
        match reply {
            Ok(out) => parse_commit_count(out.as_str()),
            Err(e) => Err(e),
        }
    }

    /// `git add -A`, or `git add <paths>`.
    fn stage(&self, paths: Option<&[&str]>) -> (r: Result<(), Error>)
        ensures
            self.staged(paths_view(paths), r),
    {
        let result = match paths {
            None => {
                let args = ["add", "-A"];
                let reply = self.runner.run("git", &args);
                assert(args_view(args@) =~= stage_args(paths_view(paths)));
                assert(self.runner().ran("git"@, stage_args(paths_view(paths)), reply));
                reply
            },
            Some(paths) => {
                let mut args: Vec<&str> = Vec::new();
                args.push("add");
                let mut i: usize = 0;
                while i < paths.len()
                    invariant
                        i <= paths@.len(),
                        args_view(args@) =~= seq!["add"@] + args_view(paths@.take(i as int)),
                    decreases paths.len() - i,
                {
                    let ghost before = args@;
                    args.push(paths[i]);
                    proof {
                        assert(paths@.take(i + 1) =~= paths@.take(i as int).push(paths@[i as int]));
                        assert(args_view(args@) =~= args_view(before).push(paths@[i as int]@));
                        assert(args_view(paths@.take(i + 1)) =~= args_view(paths@.take(i as int)).push(
                            paths@[i as int]@,
                        ));
                    }
                    i = i + 1;
                }
                proof {
                    assert(paths@.take(paths@.len() as int) =~= paths@);
                }
                let reply = self.runner.run("git", args.as_slice());
                assert(self.runner().ran("git"@, stage_args(paths_view(Some(paths))), reply));
                reply
            },
        };
        match result {
            Ok(_) => Ok(()),
            Err(e) => Err(e),
        }
    }

    /// `git commit -m <message>`.
    fn commit(&self, message: &str) -> (r: Result<(), Error>)
        ensures
            self.committed(message@, r),
    {
        let args = ["commit", "-m", message];
        let reply = self.runner.run("git", &args);
        assert(args_view(args@) =~= commit_args(message@));
        assert(self.runner().ran("git"@, commit_args(message@), reply));
        match reply {
            Ok(_) => Ok(()),
            Err(e) => Err(e),
        }
    }
}

} // verus!
