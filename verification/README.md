# hannahanna

`hn` manages several working copies of one repository side by side (git worktrees,
Mercurial shares, Jujutsu workspaces), each with its own environment: shared or copied
files, hooks, Docker ports and state.

The decisions of the tool live in `src/`, written in Verus and proved against their
contracts:

- `config` — configuration layers and how they merge;
- `fuzzy`, `validation` — finding a worktree by a partial name, checking names and paths;
- `vcs`, `git`, `shares` — reading `git worktree list`, `hg`/`jj` output, status counts,
  the share registry, which system to use;
- `hooks` — which hook runs, where, with which environment, and how failures read;
- `docker` — port allocation (no two worktrees share a port) and compose commands;
- `env` — which files are linked or copied into a worktree, and lockfile compatibility;
- `tags`, `snapshot`, `workspace`, `monitoring`, `cache`, `state`, `stats` — the indexes
  and records kept under `.hn-state`, and what is shown of them;
- `each`, `merge`, `commands`, `suggestions`, `templates` — the rules of the individual
  commands and the hints shown with errors.

Laws that relate several operations are stated as public proof functions named `law_*`.

`app/` is the command-line program around the library: argument parsing, processes,
files, serialization and printing. `tests/` exercises the library on concrete values.
