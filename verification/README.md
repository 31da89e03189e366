# actioneer

`actioneer` audits the `uses:` references of GitHub Actions workflows and
proposes or applies updates to them: it finds the workflow files, reads each
reference, resolves it through GitHub, checks how it is pinned, and plans
semver-aware upgrades, written as a full commit SHA with a tag comment or as a
tag.

The rules of the tool are a library verified with Verus; the program around
it does the input and output.

## Layout

- `src/` — the verified library. Each public function carries a contract
  over specification functions and views of its types; the terminal
  operations are a trait whose log of calls the session's contracts speak of.
  - `engine/` reads `uses:` values and workflow documents into references;
    `syntax.rs` reads scalars and version comments.
  - `github/` classifies refs, names cache files, gathers release pages and
    decides between the cache and the network; `clock.rs` and `semver_ext.rs`
    hold the calls into `time` and `semver`.
  - `scan/` audits each reference, plans its update and rewrites the lines of
    a workflow file; `cmd/` renders the audit and the plan as text.
  - `config.rs` holds the settings and how command-line options override the
    configuration file.
  - `tui/`, `prompt/` and `ui/` hold the state of the interactive views:
    selection, folding, focus and scrolling, and what each key does.
  - `discovery.rs`, `audit/`, `update.rs`, `patch.rs`, `rewrite.rs`,
    `resolve.rs` and `actions/` hold workflow discovery, pin findings and
    fixes, update candidates and line patches.
  - `laws.rs` states and proves properties that span several functions.
- `app/` — the command-line program: argument parsing, configuration and
  workflow files, HTTP requests and the on-disk cache, the terminal, and
  JSON output.
- `tests/` — tests of the library on concrete values.
