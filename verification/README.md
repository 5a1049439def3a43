# gh_pr_digest

Downloads a GitHub pull request's reviews, inline review threads and
conversation comments into one Markdown document.

The library in `src/` is written in Verus: every decision the command makes is
a function with a contract, proved by the verifier.

- `cli` — the command-line values (pull request number or URL, `-R`, output
  target, filters) and the rules that relate them.
- `repo` — which repository a git remote URL names, and the order in which
  remotes are tried.
- `github::auth` — host and token resolution; `github::client` — when to
  retry and what a response means; `github::fetch` — following pagination
  cursors; `github::query` — the GraphQL documents; `github::model` — the wire
  types.
- `digest` — the domain model: threads classified by status, sorted so that
  actionable ones come first, numbered and counted.
- `filter` — selecting threads along the two axes, resolution and
  outdatedness.
- `render::markdown` — the document, as a spec function of the digest and the
  filter.
- `output`, `run` — the default output path, the temporary-file name, and the
  repository and host a run settles on.
- `text`, `split`, `number` — character-sequence helpers with their models.

The public proof functions (`lemma_*`) state what holds across calls: for
instance that filtering never changes thread numbers or the counts table, that
every quoted line starts with `>`, and that a diff fence outlasts any run of
backticks in its hunk.

`app/` is the command itself: argument parsing with clap, HTTP with ureq, JSON
with serde, git and `gh` processes, and file output. It hands the library plain
values and acts on what comes back.
