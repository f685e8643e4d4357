pub mod types;

use vstd::prelude::*;
use crate::github::types::{GhIssue, GhLabel};
use crate::text::{
    is_trimmed, lemma_trim_is_trimmed, is_whitespace, lemma_decimal_digits, lemma_parse_decimal, trim_end, trim_start, is_digit,
    chars_of, extend_range, parse_u64, parse_u64_str, push_str, string_of, trim, trim_str,
    u64_to_string, decimal,
};
use crate::context::Call;
use crate::traits::{
    args_view, has_label, strings_view, trimmed_reply, unit_of, CommandRunner, Error, Issue,
    IssueTracker, IssueType, IssueView, JsonDecoder, RemoteClient,
};

verus! {

broadcast use {vstd::string::group_string_axioms, vstd::std_specs::vec::group_vec_axioms};

/// Whether `s` holds the character `c`.
pub open spec fn has_char(s: Seq<char>, c: char) -> bool {
    exists|i: int| 0 <= i < s.len() && s[i] == c
}

/// What follows the last `/` of `s`, or all of `s` when it has none
/// (`s.split('/').next_back()`).
pub open spec fn last_segment(s: Seq<char>) -> Seq<char>
    decreases s.len(),
{
    if s.len() == 0 {
        s
    } else if s.last() == '/' {
        Seq::empty()
    } else {
        last_segment(s.drop_last()).push(s.last())
    }
}

/// The number at the end of an issue URL such as
/// `https://github.com/owner/repo/issues/99`, after trimming it.
pub open spec fn id_from_url(url: Seq<char>) -> Option<u64> {
    parse_u64(last_segment(trim(url)))
}

/// The issue number at the end of `url`.
pub fn parse_id_from_url(url: &str) -> (r: Result<u64, Error>)
    ensures
        match id_from_url(url@) {
            Some(id) => r == Ok::<u64, Error>(id),
            None => r matches Err(Error::InvalidUrl(u)) && u@ == trim(url@),
        },
{
    let t = trim_str(url);
    let v = chars_of(t.as_str());
    let mut k: usize = v.len();
    assert(v@.subrange(0, v@.len() as int) =~= v@);
    assert(v@.subrange(v@.len() as int, v@.len() as int) =~= Seq::<char>::empty());
    assert(last_segment(v@) + Seq::<char>::empty() =~= last_segment(v@));
    while k > 0 && v[k - 1] != '/'
        invariant
            k <= v@.len(),
            v@ == trim(url@),
            last_segment(v@) == last_segment(v@.subrange(0, k as int)) + v@.subrange(
                k as int,
                v@.len() as int,
            ),
        decreases k,
    {
        let ghost prefix = v@.subrange(0, k as int);
        assert(prefix.drop_last() =~= v@.subrange(0, k - 1));
        assert(v@.subrange(k - 1, v@.len() as int) =~= seq![prefix.last()] + v@.subrange(
            k as int,
            v@.len() as int,
        ));
        assert(last_segment(prefix) == last_segment(prefix.drop_last()).push(prefix.last()));
        assert(last_segment(prefix.drop_last()).push(prefix.last()) + v@.subrange(k as int, v@.len() as int)
            =~= last_segment(prefix.drop_last()) + v@.subrange(k - 1, v@.len() as int));
        k = k - 1;
    }
    proof {
        let prefix = v@.subrange(0, k as int);
        assert(last_segment(prefix) =~= Seq::<char>::empty());
        assert(v@.subrange(0, v@.len() as int) =~= v@);
    }
    let mut seg: Vec<char> = Vec::new();
    extend_range(&mut seg, &v, k, v.len());
    let seg_str = string_of(&seg);
    assert(seg_str@ =~= last_segment(trim(url@)));
    match parse_u64_str(seg_str.as_str()) {
        Some(id) => Ok(id),
        None => Err(Error::InvalidUrl(t)),
    }
}

/// A segment without `/`, after a `/`, is the last segment.
proof fn lemma_last_segment_after_slash(p: Seq<char>, d: Seq<char>)
    requires
        forall|i: int| 0 <= i < d.len() ==> d[i] != '/',
    ensures
        last_segment(p + seq!['/'] + d) == d,
    decreases d.len(),
{
    let x = p + seq!['/'] + d;
    if d.len() == 0 {
        assert(x.last() == '/');
    } else {
        assert(x.drop_last() =~= p + seq!['/'] + d.drop_last());
        lemma_last_segment_after_slash(p, d.drop_last());
        assert(d.drop_last().push(d.last()) =~= d);
    }
}

/// The issue number at the end of the URL of a created issue, as the GitHub
/// CLI prints it (with a line break after it), is read back exactly.
pub proof fn lemma_issue_url_round_trip(prefix: Seq<char>, n: u64)
    requires
        prefix.len() > 0,
        !is_whitespace(prefix[0]),
    ensures
        id_from_url(prefix + "/"@ + decimal(n as nat) + "\n"@) == Some(n),
{
    reveal_strlit("/");
    reveal_strlit("\n");
    let d = decimal(n as nat);
    lemma_decimal_digits(n as nat);
    lemma_parse_decimal(n);
    let core = prefix + seq!['/'] + d;
    let url = prefix + "/"@ + d + "\n"@;
    assert(url =~= core.push('\n'));
    assert(trim_start(url) == url);
    assert(url.drop_last() =~= core);
    assert(is_whitespace('\n'));
    assert(!is_whitespace(core.last())) by {
        assert(core.last() == d[d.len() - 1]);
        assert(is_digit(d[d.len() - 1]));
    }
    assert(trim_end(url) == trim_end(core));
    assert(trim(url) == core);
    assert forall|i: int| 0 <= i < d.len() implies d[i] != '/' by {
        assert(is_digit(d[i]));
    }
    lemma_last_segment_after_slash(prefix, d);
}

/// The names of `labels`, in order.
pub open spec fn label_names(labels: Seq<GhLabel>) -> Seq<Seq<char>> {
    labels.map_values(|l: GhLabel| l.name@)
}

/// An issue as the tracker describes it, in the library's terms.
pub fn into_issue(gh: GhIssue) -> (r: Issue)
    ensures
        r.id == gh.number,
        r.title@ == gh.title@,
        r.body@ == gh.body@,
        strings_view(r.labels@) == label_names(gh.labels@),
{
    let ghost labels = gh.labels@;
    let mut names: Vec<String> = Vec::new();
    for label in it: gh.labels.into_iter()
        invariant
            it.seq() == labels,
            strings_view(names@) == label_names(labels.take(it.index() as int)),
    {
        let ghost k = it.index() as int;
        names.push(label.name);
        proof {
            assert(label_names(labels.take(k + 1)) =~= label_names(labels.take(k)).push(labels[k].name@));
            assert(strings_view(names@) =~= strings_view(names@.drop_last()).push(names@.last()@));
        }
    }
    proof {
        assert(labels.take(labels.len() as int) =~= labels);
    }
    Issue { id: gh.number, title: gh.title, body: gh.body, labels: names }
}

/// The issues as the tracker describes them, in the library's terms.
#[verifier::spinoff_prover]
pub fn into_issues(gh: Vec<GhIssue>) -> (r: Vec<Issue>)
    ensures
        r@.len() == gh@.len(),
        forall|k: int|
            0 <= k < r@.len() ==> {
                &&& #[trigger] r@[k].id == gh@[k].number
                &&& r@[k].title@ == gh@[k].title@
                &&& r@[k].body@ == gh@[k].body@
                &&& strings_view(r@[k].labels@) == label_names(gh@[k].labels@)
            },
{
    let ghost all = gh@;
    let mut issues: Vec<Issue> = Vec::new();
    for g in it: gh.into_iter()
        invariant
            it.seq() == all,
            issues@.len() == it.index(),
            forall|k: int|
                0 <= k < issues@.len() ==> {
                    &&& #[trigger] issues@[k].id == all[k].number
                    &&& issues@[k].title@ == all[k].title@
                    &&& issues@[k].body@ == all[k].body@
                    &&& strings_view(issues@[k].labels@) == label_names(all[k].labels@)
                },
    {
        issues.push(into_issue(g));
    }
    issues
}

/// The type of an issue with the labels `labels`: a feature when one of them
/// is `feature`, a ticket otherwise.
pub open spec fn issue_type_of(labels: Seq<Seq<char>>) -> IssueType {
    if labels.contains(crate::traits::feature_label()) {
        IssueType::Feature
    } else {
        IssueType::Ticket
    }
}

/// The tracker's commands are the `gh` commands their names say, with the
/// issue, repository, label, title and body each after the flag that gives
/// it to `gh`: an issue is viewed by its number, claimed with the comment
/// "Claiming this issue.", marked done with the label `agent-complete`,
/// left to a person with the label `hitl`, and a child is linked under its
/// parent through the parent's sub-issues.
pub proof fn lemma_github_commands<C: CommandRunner, J: JsonDecoder>(
    gh: GithubAdapter<C, J>,
    id: u64,
    label: Seq<char>,
    title: Seq<char>,
    body: Seq<char>,
    parent: u64,
    child: u64,
    done: Result<(), Error>,
)
    ensures
        view_args(id, gh.repo()) == seq![
            "issue"@,
            "view"@,
            decimal(id as nat),
            "--repo"@,
            gh.repo(),
            "--json"@,
            "number,title,body,labels"@,
        ],
        children_args(gh.repo(), id) == seq![
            "api"@,
            "/repos/"@ + gh.repo() + "/issues/"@ + decimal(id as nat) + "/sub_issues"@,
        ],
        comment_args(id, gh.repo(), body) == seq![
            "issue"@,
            "comment"@,
            decimal(id as nat),
            "--repo"@,
            gh.repo(),
            "--body"@,
            body,
        ],
        label_args(id, gh.repo(), label) == seq![
            "issue"@,
            "edit"@,
            decimal(id as nat),
            "--repo"@,
            gh.repo(),
            "--add-label"@,
            label,
        ],
        create_args(gh.repo(), title, body) == seq![
            "issue"@,
            "create"@,
            "--repo"@,
            gh.repo(),
            "--title"@,
            title,
            "--body"@,
            body,
        ],
        link_args(gh.repo(), parent, child) == seq![
            "api"@,
            "/repos/"@ + gh.repo() + "/issues/"@ + decimal(parent as nat) + "/sub_issues"@,
            "--method"@,
            "POST"@,
            "-f"@,
            "sub_issue_id="@ + decimal(child as nat),
        ],
        IssueTracker::handled(&gh, Call::Claim(id, done)) == gh.gh_done(
            comment_args(id, gh.repo(), "Claiming this issue."@),
            done,
        ),
        IssueTracker::handled(&gh, Call::Complete(id, done)) == gh.gh_done(
            label_args(id, gh.repo(), "agent-complete"@),
            done,
        ),
        IssueTracker::handled(&gh, Call::Skip(id, done)) == gh.gh_done(
            label_args(id, gh.repo(), "hitl"@),
            done,
        ),
{
}

/// An issue is a feature exactly when one of its labels is `feature`, and a
/// ticket otherwise: an issue without labels is a ticket.
pub proof fn lemma_feature_exactly_when_labeled(labels: Seq<Seq<char>>)
    ensures
        (issue_type_of(labels) == IssueType::Feature) == exists|i: int|
            0 <= i < labels.len() && #[trigger] labels[i] == "feature"@,
        (issue_type_of(labels) == IssueType::Ticket) == !labels.contains("feature"@),
{
    if labels.contains("feature"@) {
        let i = choose|i: int| 0 <= i < labels.len() && labels[i] == "feature"@;
        assert(labels[i] == "feature"@);
    }
}

/// The issues fetched for a label are asked for with that label as a filter:
/// in the `gh issue list` command, `--label` is followed by the label, and
/// `--repo` by the repository.
pub proof fn lemma_list_filters_by_label(repo: Seq<char>, label: Seq<char>)
    ensures
        list_args(repo, label)[0] == "issue"@,
        list_args(repo, label)[1] == "list"@,
        exists|i: int|
            0 <= i < list_args(repo, label).len() - 1 && list_args(repo, label)[i] == "--label"@
                && #[trigger] list_args(repo, label)[i + 1] == label,
        exists|i: int|
            0 <= i < list_args(repo, label).len() - 1 && list_args(repo, label)[i] == "--repo"@
                && #[trigger] list_args(repo, label)[i + 1] == repo,
{
    assert(list_args(repo, label)[4int + 1] == label);
    assert(list_args(repo, label)[2int + 1] == repo);
}

/// What the tracker gives for a label comes from a `gh issue list` run with
/// that label as its filter.
pub proof fn lemma_by_label_runs_with_the_label<C: CommandRunner, J: JsonDecoder>(
    gh: GithubAdapter<C, J>,
    label: Seq<char>,
    r: Result<Vec<Issue>, Error>,
)
    requires
        IssueTracker::handled(&gh, Call::IssuesByLabel(label, r)),
    ensures
        exists|args: Seq<Seq<char>>, reply: Result<String, Error>|
            #[trigger] gh.runner().ran("gh"@, args, reply) && args == seq![
                "issue"@,
                "list"@,
                "--repo"@,
                gh.repo(),
                "--label"@,
                label,
                "--json"@,
                "number,title,body,labels"@,
            ] && match reply {
                Ok(out) => gh.issues_decoded(out@, r),
                Err(e) => r == Err::<Vec<Issue>, Error>(e),
            },
{
    let args = list_args(gh.repo(), label);
    let reply = choose|reply: Result<String, Error>|
        #[trigger] gh.runner().ran("gh"@, args, reply) && match reply {
            Ok(out) => gh.issues_decoded(out@, r),
            Err(e) => r == Err::<Vec<Issue>, Error>(e),
        };
    assert(gh.runner().ran("gh"@, args, reply));
}

/// A pull request is opened from `branch`: `gh pr create` is run with
/// `--head` followed by the branch, and `--repo` by the repository.
pub proof fn lemma_pr_from_branch<C: CommandRunner, J: JsonDecoder>(
    gh: GithubAdapter<C, J>,
    title: Seq<char>,
    body: Seq<char>,
    branch: Seq<char>,
    r: Result<String, Error>,
)
    requires
        gh.pr_opened(title, body, branch, r),
    ensures
        exists|args: Seq<Seq<char>>, reply: Result<String, Error>|
            #[trigger] gh.runner().ran("gh"@, args, reply) && args[0] == "pr"@ && args[1] == "create"@
                && args.len() == 10 && args[2] == "--repo"@ && args[3] == gh.repo() && args[8]
                == "--head"@ && args[9] == branch && trimmed_reply(reply, r),
        exists|i: int|
            0 <= i < pr_args(gh.repo(), title, body, branch).len() - 1 && pr_args(gh.repo(), title, body, branch)[i]
                == "--head"@ && #[trigger] pr_args(gh.repo(), title, body, branch)[i + 1] == branch,
{
    let args = pr_args(gh.repo(), title, body, branch);
    let reply = choose|reply: Result<String, Error>|
        #[trigger] gh.runner().ran("gh"@, args, reply) && trimmed_reply(reply, r);
    assert(gh.runner().ran("gh"@, args, reply));
    assert(args[8int + 1] == branch);
}

/// The path of the sub-issues of `id` in the GitHub API.
pub open spec fn sub_issues_path(repo: Seq<char>, id: u64) -> Seq<char> {
    "/repos/"@ + repo + "/issues/"@ + decimal(id as nat) + "/sub_issues"@
}

fn sub_issues_path_string(repo: &str, id: u64) -> (r: String)
    ensures
        r@ == sub_issues_path(repo@, id),
{
    let mut r = String::new();
    push_str(&mut r, "/repos/");
    push_str(&mut r, repo);
    push_str(&mut r, "/issues/");
    let n = u64_to_string(id);
    push_str(&mut r, n.as_str());
    push_str(&mut r, "/sub_issues");
    r
}

/// The field that links an issue as a sub-issue.
pub open spec fn sub_issue_field(id: u64) -> Seq<char> {
    "sub_issue_id="@ + decimal(id as nat)
}

fn sub_issue_field_string(id: u64) -> (r: String)
    ensures
        r@ == sub_issue_field(id),
{
    let mut r = String::new();
    push_str(&mut r, "sub_issue_id=");
    let n = u64_to_string(id);
    push_str(&mut r, n.as_str());
    r
}

/// An issue as the tracker describes it, as plain values.
pub open spec fn gh_view(gh: GhIssue) -> IssueView {
    IssueView {
        id: gh.number,
        title: gh.title@,
        body: gh.body@,
        labels: label_names(gh.labels@),
    }
}

/// `r` is the issue the decoder gave, in the library's terms, or the
/// decoder's complaint.
pub open spec fn issue_reply(d: Result<GhIssue, String>, r: Result<Issue, Error>) -> bool {
    match d {
        Ok(gh) => r matches Ok(i) && i@ == gh_view(gh),
        Err(m) => r == Err::<Issue, Error>(Error::InvalidJson(m)),
    }
}

/// `r` is the list of issues the decoder gave, in the library's terms and in
/// the same order, or the decoder's complaint.
pub open spec fn issues_reply(d: Result<Vec<GhIssue>, String>, r: Result<Vec<Issue>, Error>) -> bool {
    match d {
        Ok(ghs) => r matches Ok(v) && v@.len() == ghs@.len() && forall|k: int|
            0 <= k < v@.len() ==> #[trigger] v@[k]@ == gh_view(ghs@[k]),
        Err(m) => r == Err::<Vec<Issue>, Error>(Error::InvalidJson(m)),
    }
}

/// The fields that `gh` is asked for when it lists issues.
pub open spec fn issue_fields() -> Seq<char> {
    "number,title,body,labels"@
}

/// `gh issue view <id> --repo <repo> --json number,title,body,labels`.
pub open spec fn view_args(id: u64, repo: Seq<char>) -> Seq<Seq<char>> {
    seq!["issue"@, "view"@, decimal(id as nat), "--repo"@, repo, "--json"@, issue_fields()]
}

/// `gh api /repos/<repo>/issues/<id>/sub_issues`.
pub open spec fn children_args(repo: Seq<char>, id: u64) -> Seq<Seq<char>> {
    seq!["api"@, sub_issues_path(repo, id)]
}

/// `gh issue list --repo <repo> --label <label> --json number,title,body,labels`.
pub open spec fn list_args(repo: Seq<char>, label: Seq<char>) -> Seq<Seq<char>> {
    seq!["issue"@, "list"@, "--repo"@, repo, "--label"@, label, "--json"@, issue_fields()]
}

/// `gh issue comment <id> --repo <repo> --body <body>`.
pub open spec fn comment_args(id: u64, repo: Seq<char>, body: Seq<char>) -> Seq<Seq<char>> {
    seq!["issue"@, "comment"@, decimal(id as nat), "--repo"@, repo, "--body"@, body]
}

/// `gh issue edit <id> --repo <repo> --add-label <label>`.
pub open spec fn label_args(id: u64, repo: Seq<char>, label: Seq<char>) -> Seq<Seq<char>> {
    seq!["issue"@, "edit"@, decimal(id as nat), "--repo"@, repo, "--add-label"@, label]
}

/// `gh issue create --repo <repo> --title <title> --body <body>`.
pub open spec fn create_args(repo: Seq<char>, title: Seq<char>, body: Seq<char>) -> Seq<Seq<char>> {
    seq!["issue"@, "create"@, "--repo"@, repo, "--title"@, title, "--body"@, body]
}

/// `gh api /repos/<repo>/issues/<parent>/sub_issues --method POST -f sub_issue_id=<child>`.
pub open spec fn link_args(repo: Seq<char>, parent: u64, child: u64) -> Seq<Seq<char>> {
    seq!["api"@, sub_issues_path(repo, parent), "--method"@, "POST"@, "-f"@, sub_issue_field(child)]
}

/// `gh pr create --repo <repo> --title <title> --body <body> --head <branch>`.
pub open spec fn pr_args(repo: Seq<char>, title: Seq<char>, body: Seq<char>, branch: Seq<char>) -> Seq<
    Seq<char>,
> {
    seq!["pr"@, "create"@, "--repo"@, repo, "--title"@, title, "--body"@, body, "--head"@, branch]
}

fn unit_result(r: Result<String, Error>) -> (u: Result<(), Error>)
    ensures
        u == unit_of(r),
{
    match r {
        Ok(_) => Ok(()),
        Err(e) => Err(e),
    }
}

/// The issue tracker and the remote of a GitHub repository, through the `gh` command.
pub struct GithubAdapter<C, J> {
    repo: String,
    runner: C,
    json: J,
}

impl<C: CommandRunner, J: JsonDecoder> GithubAdapter<C, J> {
    /// The adapter for the repository `repo` (`owner/repo`).
    pub fn new(repo: &str, runner: C, json: J) -> (r: Self)
        ensures
            r.repo() == repo@,
            r.runner() == runner,
            r.json() == json,
    {
        GithubAdapter { repo: repo.to_string(), runner, json }
    }

    /// The repository, as `owner/repo`.
    pub closed spec fn repo(&self) -> Seq<char> {
        self.repo@
    }

    /// The command runner `gh` is invoked through.
    pub closed spec fn runner(&self) -> C {
        self.runner
    }

    /// The decoder of what `gh` prints.
    pub closed spec fn json(&self) -> J {
        self.json
    }

    /// `r` is what the decoder made of `out` as one issue, in the library's terms.
    pub open spec fn issue_decoded(&self, out: Seq<char>, r: Result<Issue, Error>) -> bool {
        exists|d: Result<GhIssue, String>| #[trigger]
            self.json().decodes_issue(out, d) && issue_reply(d, r)
    }

    /// `r` is what the decoder made of `out` as a list of issues, in the library's terms.
    pub open spec fn issues_decoded(&self, out: Seq<char>, r: Result<Vec<Issue>, Error>) -> bool {
        exists|d: Result<Vec<GhIssue>, String>| #[trigger]
            self.json().decodes_issues(out, d) && issues_reply(d, r)
    }

    /// `r` is what `gh` run with `args` printed, decoded as one issue, or the
    /// error of the run.
    pub open spec fn issue_fetched(&self, args: Seq<Seq<char>>, r: Result<Issue, Error>) -> bool {
        exists|reply: Result<String, Error>| #[trigger]
            self.runner().ran("gh"@, args, reply) && match reply {
                Ok(out) => self.issue_decoded(out@, r),
                Err(e) => r == Err::<Issue, Error>(e),
            }
    }

    /// `r` is what `gh` run with `args` printed, decoded as a list of issues,
    /// or the error of the run.
    pub open spec fn issues_fetched(&self, args: Seq<Seq<char>>, r: Result<Vec<Issue>, Error>) -> bool {
        exists|reply: Result<String, Error>| #[trigger]
            self.runner().ran("gh"@, args, reply) && match reply {
                Ok(out) => self.issues_decoded(out@, r),
                Err(e) => r == Err::<Vec<Issue>, Error>(e),
            }
    }

    /// `r` is the outcome of running `gh` with `args` for its effect.
    pub open spec fn gh_done(&self, args: Seq<Seq<char>>, r: Result<(), Error>) -> bool {
        exists|reply: Result<String, Error>| #[trigger]
            self.runner().ran("gh"@, args, reply) && r == unit_of(reply)
    }

    /// `r` is the outcome of linking the issue `child` under `parent` after it
    /// was created with `title` and `body`: the new issue, without labels, or
    /// the error of the run.
    pub open spec fn child_linked(
        &self,
        parent: u64,
        child: u64,
        title: Seq<char>,
        body: Seq<char>,
        r: Result<Issue, Error>,
    ) -> bool {
        exists|reply: Result<String, Error>| #[trigger]
            self.runner().ran("gh"@, link_args(self.repo(), parent, child), reply) && match reply {
                Ok(_) => r matches Ok(issue) && issue@ == (IssueView {
                    id: child,
                    title,
                    body,
                    labels: Seq::empty(),
                }),
                Err(e) => r == Err::<Issue, Error>(e),
            }
    }

    /// `r` is the outcome of creating an issue titled `title` with `body`
    /// and linking it under `parent`: the error of the creation; an invalid
    /// URL when the URL `gh` printed ends in no number; else [`child_linked`](Self::child_linked).
    pub open spec fn child_created(&self, parent: u64, title: Seq<char>, body: Seq<char>, r: Result<Issue, Error>) -> bool {
        exists|reply: Result<String, Error>| #[trigger]
            self.runner().ran("gh"@, create_args(self.repo(), title, body), reply) && match reply {
                Ok(url) => match id_from_url(url@) {
                    Some(child) => self.child_linked(parent, child, title, body, r),
                    None => r matches Err(Error::InvalidUrl(u)) && u@ == trim(url@),
                },
                Err(e) => r == Err::<Issue, Error>(e),
            }
    }

    /// `r` is the kind of issue `id` as its labels tell, the issue read as
    /// by [`IssueTracker::get_issue`], or the error of reading it.
    pub open spec fn kind_read(&self, id: u64, r: Result<IssueType, Error>) -> bool {
        exists|fetched: Result<Issue, Error>| #[trigger]
            self.issue_fetched(view_args(id, self.repo()), fetched) && match fetched {
                Ok(issue) => r == Ok::<IssueType, Error>(issue_type_of(issue@.labels)),
                Err(e) => r == Err::<IssueType, Error>(e),
            }
    }

    /// `r` is the URL `gh pr create` printed for a pull request from
    /// `branch`, trimmed, or its error.
    pub open spec fn pr_opened(&self, title: Seq<char>, body: Seq<char>, branch: Seq<char>, r: Result<String, Error>) -> bool {
        exists|reply: Result<String, Error>| #[trigger]
            self.runner().ran("gh"@, pr_args(self.repo(), title, body, branch), reply)
                && trimmed_reply(reply, r)
    }

    fn decoded_issue(&self, out: &str) -> (r: Result<Issue, Error>)
        ensures
            self.issue_decoded(out@, r),
    {
        let d = self.json.decode_issue(out);
        assert(self.json().decodes_issue(out@, d));
        match d {
            Ok(gh) => {
                let issue = into_issue(gh);
                assert(issue@ == gh_view(gh));
                Ok(issue)
            },
            Err(m) => Err(Error::InvalidJson(m)),
        }
    }

    fn decoded_issues(&self, out: &str) -> (r: Result<Vec<Issue>, Error>)
        ensures
            self.issues_decoded(out@, r),
    {
        let d = self.json.decode_issues(out);
        assert(self.json().decodes_issues(out@, d));
        match d {
            Ok(gh) => {
                let ghost all = gh@;
                let issues = into_issues(gh);
                assert forall|k: int| 0 <= k < issues@.len() implies #[trigger] issues@[k]@ == gh_view(all[k]) by {
                    assert(issues@[k].id == all[k].number);
                }
                Ok(issues)
            },
            Err(m) => Err(Error::InvalidJson(m)),
        }
    }
}

impl<C: CommandRunner, J: JsonDecoder> IssueTracker for GithubAdapter<C, J> {
    /// Each call runs the `gh` commands that its method names, and its reply
    /// follows from what they gave back.
    open spec fn handled(&self, call: Call) -> bool {
        match call {
            Call::GetIssue(id, r) => self.issue_fetched(view_args(id, self.repo()), r),
            Call::GetChildren(id, r) => self.issues_fetched(children_args(self.repo(), id), r),
            Call::IssuesByLabel(label, r) => self.issues_fetched(list_args(self.repo(), label), r),
            Call::Claim(id, r) => self.gh_done(comment_args(id, self.repo(), "Claiming this issue."@), r),
            Call::Complete(id, r) => self.gh_done(label_args(id, self.repo(), "agent-complete"@), r),
            Call::Skip(id, r) => self.gh_done(label_args(id, self.repo(), "hitl"@), r),
            Call::Comment(id, body, r) => self.gh_done(comment_args(id, self.repo(), body), r),
            Call::CreateChild(parent, title, body, r) => self.child_created(parent, title, body, r),
            Call::KindOf(id, r) => self.kind_read(id, r),
            _ => true,
        }
    }

    /// `gh issue view <id> --repo <repo> --json number,title,body,labels`.
    fn get_issue(&self, id: u64) -> (r: Result<Issue, Error>)
        ensures
            self.issue_fetched(view_args(id, self.repo()), r),
    {
        let n = u64_to_string(id);
        let args = ["issue", "view", n.as_str(), "--repo", self.repo.as_str(), "--json", "number,title,body,labels"];
        let reply = self.runner.run("gh", &args);
        assert(args_view(args@) =~= view_args(id, self.repo()));
        assert(self.runner().ran("gh"@, view_args(id, self.repo()), reply));
        match reply {
            Ok(out) => self.decoded_issue(out.as_str()),
            Err(e) => Err(e),
        }
    }

    /// `gh api /repos/<repo>/issues/<id>/sub_issues`.
    fn get_children(&self, id: u64) -> (r: Result<Vec<Issue>, Error>)
        ensures
            self.issues_fetched(children_args(self.repo(), id), r),
    {
        let path = sub_issues_path_string(self.repo.as_str(), id);
        let args = ["api", path.as_str()];
        let reply = self.runner.run("gh", &args);
        assert(args_view(args@) =~= children_args(self.repo(), id));
        assert(self.runner().ran("gh"@, children_args(self.repo(), id), reply));
        match reply {
            Ok(out) => self.decoded_issues(out.as_str()),
            Err(e) => Err(e),
        }
    }

    /// `gh issue list --repo <repo> --label <label> --json number,title,body,labels`.
    fn get_issues_by_label(&self, label: &str) -> (r: Result<Vec<Issue>, Error>)
        ensures
            self.issues_fetched(list_args(self.repo(), label@), r),
            exists|args: Seq<Seq<char>>, reply: Result<String, Error>|
                #[trigger] self.runner().ran("gh"@, args, reply) && args == seq![
                    "issue"@,
                    "list"@,
                    "--repo"@,
                    self.repo(),
                    "--label"@,
                    label@,
                    "--json"@,
                    "number,title,body,labels"@,
                ] && match reply {
                    Ok(out) => self.issues_decoded(out@, r),
                    Err(e) => r == Err::<Vec<Issue>, Error>(e),
                },
    {
        let args = ["issue", "list", "--repo", self.repo.as_str(), "--label", label, "--json", "number,title,body,labels"];
        let reply = self.runner.run("gh", &args);
        assert(args_view(args@) =~= list_args(self.repo(), label@));
        assert(self.runner().ran("gh"@, list_args(self.repo(), label@), reply));
        match reply {
            Ok(out) => self.decoded_issues(out.as_str()),
            Err(e) => Err(e),
        }
    }

    /// Posts the comment "Claiming this issue." on the issue.
    fn claim_issue(&self, id: u64) -> (r: Result<(), Error>)
        ensures
            self.gh_done(comment_args(id, self.repo(), "Claiming this issue."@), r),
    {
        let n = u64_to_string(id);
        let args = ["issue", "comment", n.as_str(), "--repo", self.repo.as_str(), "--body", "Claiming this issue."];
        let reply = self.runner.run("gh", &args);
        assert(args_view(args@) =~= comment_args(id, self.repo(), "Claiming this issue."@));
        assert(self.runner().ran("gh"@, comment_args(id, self.repo(), "Claiming this issue."@), reply));
        unit_result(reply)
    }

    /// Adds the label `agent-complete`.
    fn complete_issue(&self, id: u64) -> (r: Result<(), Error>)
        ensures
            self.gh_done(label_args(id, self.repo(), "agent-complete"@), r),
    {
        let n = u64_to_string(id);
        let args = ["issue", "edit", n.as_str(), "--repo", self.repo.as_str(), "--add-label", "agent-complete"];
        let reply = self.runner.run("gh", &args);
        assert(args_view(args@) =~= label_args(id, self.repo(), "agent-complete"@));
        assert(self.runner().ran("gh"@, label_args(id, self.repo(), "agent-complete"@), reply));
        unit_result(reply)
    }

    /// Adds the label `hitl`, which leaves the issue to a person.
    fn skip_issue(&self, id: u64) -> (r: Result<(), Error>)
        ensures
            self.gh_done(label_args(id, self.repo(), "hitl"@), r),
    {
        let n = u64_to_string(id);
        let args = ["issue", "edit", n.as_str(), "--repo", self.repo.as_str(), "--add-label", "hitl"];
        let reply = self.runner.run("gh", &args);
        assert(args_view(args@) =~= label_args(id, self.repo(), "hitl"@));
        assert(self.runner().ran("gh"@, label_args(id, self.repo(), "hitl"@), reply));
        unit_result(reply)
    }

    /// `gh issue comment <id> --repo <repo> --body <body>`.
    fn post_comment(&self, id: u64, body: &str) -> (r: Result<(), Error>)
        ensures
            self.gh_done(comment_args(id, self.repo(), body@), r),
    {
        let n = u64_to_string(id);
        let args = ["issue", "comment", n.as_str(), "--repo", self.repo.as_str(), "--body", body];
        let reply = self.runner.run("gh", &args);
        assert(args_view(args@) =~= comment_args(id, self.repo(), body@));
        assert(self.runner().ran("gh"@, comment_args(id, self.repo(), body@), reply));
        unit_result(reply)
    }

    /// Creates the issue, reads its number from the URL that `gh` prints, and
    /// links it as a sub-issue of `parent_id`.
    fn create_child_issue(&self, parent_id: u64, title: &str, body: &str) -> (r: Result<Issue, Error>)
        ensures
            self.child_created(parent_id, title@, body@, r),
    {
        let args = ["issue", "create", "--repo", self.repo.as_str(), "--title", title, "--body", body];
        let reply = self.runner.run("gh", &args);
        assert(args_view(args@) =~= create_args(self.repo(), title@, body@));
        assert(self.runner().ran("gh"@, create_args(self.repo(), title@, body@), reply));
        let url = match reply {
            Ok(url) => url,
            Err(e) => return Err(e),
        };
        let child_id = match parse_id_from_url(url.as_str()) {
            Ok(id) => id,
            Err(e) => return Err(e),
        };
        let path = sub_issues_path_string(self.repo.as_str(), parent_id);
        let field = sub_issue_field_string(child_id);
        let link = ["api", path.as_str(), "--method", "POST", "-f", field.as_str()];
        let linked = self.runner.run("gh", &link);
        assert(args_view(link@) =~= link_args(self.repo(), parent_id, child_id));
        assert(self.runner().ran("gh"@, link_args(self.repo(), parent_id, child_id), linked));
        match linked {
            Ok(_) => {},
            Err(e) => return Err(e),
        }
        let issue = Issue { id: child_id, title: title.to_string(), body: body.to_string(), labels: Vec::new() };
        assert(issue@.labels =~= Seq::<Seq<char>>::empty());
        Ok(issue)
    }

    /// A feature when the issue carries the label `feature`, a ticket otherwise.
    fn issue_type(&self, id: u64) -> (r: Result<IssueType, Error>)
        ensures
            self.kind_read(id, r),
    {
        let fetched = self.get_issue(id);
        assert(self.issue_fetched(view_args(id, self.repo()), fetched));
        let issue = match fetched {
            Ok(issue) => issue,
            Err(e) => return Err(e),
        };
        Ok(type_of_labels(&issue.labels))
    }
}

/// The type of an issue with the labels `labels`.
pub fn type_of_labels(labels: &Vec<String>) -> (r: IssueType)
    ensures
        r == issue_type_of(strings_view(labels@)),
        (r == IssueType::Feature) == exists|i: int| 0 <= i < labels@.len() && #[trigger] labels@[i]@ == "feature"@,
{
    proof {
        reveal_strlit("feature");
    }
    let is_feature = has_label(labels, "feature");
    proof {
        let names = strings_view(labels@);
        if is_feature {
            let i = choose|i: int| 0 <= i < names.len() && names[i] == "feature"@;
            assert(labels@[i]@ == names[i]);
        } else {
            assert forall|i: int| 0 <= i < labels@.len() implies #[trigger] labels@[i]@ != "feature"@ by {
                assert(names[i] == labels@[i]@);
            }
        }
    }
    if is_feature {
        IssueType::Feature
    } else {
        IssueType::Ticket
    }
}

impl<C: CommandRunner, J: JsonDecoder> RemoteClient for GithubAdapter<C, J> {
    /// Opening a pull request runs `gh pr create`; its reply is the URL printed.
    open spec fn handled(&self, call: Call) -> bool {
        match call {
            Call::CreatePr(title, body, branch, r) => self.pr_opened(title, body, branch, r),
            _ => true,
        }
    }

    /// `gh pr create --repo <repo> --title <title> --body <body> --head <branch>`;
    /// gives the URL it prints, trimmed.
    fn create_pr(&self, title: &str, body: &str, branch: &str) -> (r: Result<String, Error>)
        ensures
            r matches Ok(url) ==> is_trimmed(url@),
            self.pr_opened(title@, body@, branch@, r),
            exists|args: Seq<Seq<char>>, reply: Result<String, Error>|
                #[trigger] self.runner().ran("gh"@, args, reply) && args == seq![
                    "pr"@,
                    "create"@,
                    "--repo"@,
                    self.repo(),
                    "--title"@,
                    title@,
                    "--body"@,
                    body@,
                    "--head"@,
                    branch@,
                ] && trimmed_reply(reply, r),
    {
        let args = ["pr", "create", "--repo", self.repo.as_str(), "--title", title, "--body", body, "--head", branch];
        let reply = self.runner.run("gh", &args);
        assert(args_view(args@) =~= pr_args(self.repo(), title@, body@, branch@));
        assert(self.runner().ran("gh"@, pr_args(self.repo(), title@, body@, branch@), reply));
        match reply {
            Ok(url) => {
                proof {
                    lemma_trim_is_trimmed(url@);
                }
                Ok(trim_str(url.as_str()))
            },
            Err(e) => Err(e),
        }
    }
}

} // verus!
