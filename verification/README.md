# intern

`intern` reads a GitHub issue, plans the order of its sub-issues, has a
coding agent implement each one, reviews the work until the review is clean,
asks for test instructions, and opens pull requests as the configured merge
strategy says.

## Layout

- `src/` is the library, verified with Verus. `context.rs` keeps, as ghost
  state, every call a run makes on its adapters; `laws.rs` states the rules
  every run keeps over that log (a budget that is never exceeded, no branch or
  pull request under the `direct` strategy, claims only of fetched issues
  without the `hitl` label, pull requests only from branches created in the
  run, skips only when the budget is spent or a second feature review still
  finds problems, commits only under a `commit` policy, and test instructions
  only after a clean review); every run that fails, fails with what its last
  call gave back. `actions/`, `behaviors.rs` and `workflows.rs`
  are the steps and the workflows, each specified as the exact course of
  calls it makes and the result that follows from what those calls gave
  back; `wizard.rs` is `intern init`'s interview and `scaffold.rs` the files
  it writes;
  `git/`, `github/` and `runner/` are the adapters, which run commands through
  the `CommandRunner` interface. Every interface to the outside world has a
  hook (`handled`, `ran`, `answered`, …) through which an implementation can
  describe its replies; the library's adapters describe theirs exactly, and
  every call a context logs is one its adapter may have answered.
- `app/` is the command: argument parsing, configuration files, subprocesses,
  the terminal, JSON decoding and logging.
- `tests/` exercises the library with in-memory adapters.

## Configuration

`.intern/config.toml` is written by `intern init`. A `local` agent needs
the command-line tool it runs as, which `intern init` does not ask for: add
it to the `[agent]` section:

```toml
[agent]
kind = "local"
command = "<the agent's command-line tool>"
```
