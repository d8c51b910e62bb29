# loopy_gen_plan

The logic of plans that are kept as trees of markdown files: which nodes a plan
has, which reviews they passed, and how a plan is refined after comments on it.

The library under `src/` is written in Verus. Every function has a contract over
mathematical models, and the laws that hold of the library as a whole are public
proof functions. It reads no file, runs no command and keeps no database.

- `text`, `line_laws`, `paths`, `files`: text, lines, paths, and what stands on
  disk.
- `bundle`, `skill`: skill bundles, their manifests, roles and prompts.
- `runtime`: plans, nodes, links between them, review gates and comments.
- `refine`: from comments to decisions, to rewritten markdown, to the reviews
  that have to run again.
- `events`, `digest`, `ids`, `invocation`, `cli`: event logs, fingerprints, ids,
  local commands, and the words of the command line.

The program under `app/` is the rest: the command line, SQLite, the file system
and child processes. It hands the library plain values and carries out what the
library decides. Skills that agents have installed are looked for below
`$CODEX_HOME`, in `$HOME/.codex`, and in the other directories below `$HOME`
that `LOOPY_AGENT_DIRECTORIES` names, separated by commas.
