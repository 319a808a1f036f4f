# herdr_worktree_bootstrap

Bootstraps a freshly created git worktree on herdr's `worktree.created`
event: git update, pre hooks, copy of gitignored files, dependency install,
post hooks — in that order, stopping at the first failure. Each repository
configures its own bootstrap in `.herdr/worktree-bootstrap.{toml,yaml,yml}`.

Layout:

- `src/` — the verified library (Verus). `run` turns a config into the
  ordered steps; `bootstrap` decides each step's commands and copies (hooks,
  git update, gitignored-file discovery with `*` globs, install detection);
  `config` holds the schema (including `[notify] when` and `[failure]
  action`) and chooses the config file and its format; the fail-fast
  decisions between steps, between copies and between install directories
  are verified functions;
  `rollback` and `herdr` build the commands that undo a worktree and find the
  herdr binary. Laws about the plan and the globs are proof functions.
- `app/` — the program: reads the event and the config file, parses them
  with serde, and carries out the steps (processes, file copies, directory
  probes).
- `tests/` — tests of the library.
