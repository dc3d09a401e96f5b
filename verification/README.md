# wip_git

`wip` is "git stash, but shared": `wip save` commits the working state on a
detached commit and pushes it to a hidden ref `refs/wip/<user>/<name>`;
`wip load` fetches it and applies it with a 3-way merge; `wip list`, `wip show`,
`wip drop` and `wip gc` inspect and clean the entries.

The library in `src/` is verified with Verus:

- `text`: the character-level operations the parsers rely on (lines, words,
  trimming, prefixes, decimal numbers), each stated over `Seq<char>`.
- `metadata`: the `[wip-push]` trailer of a WIP commit message (everything
  before it, from the `wip: ` line on, is the description), with the proof that
  reading back a written message gives back its metadata, a description of
  several lines included.
- `ref_name`, `config`: slugs, ref paths, and the `wip.*` configuration.
- `git`: how a run of `git` is turned into an answer (trimmed output or error).
- `commands`: each command as a state machine. `run` gives the first state and
  the first `git` call; `resume` takes the state and what git answered and gives
  the next state and either the next call or the result. Every step is stated
  exactly by a spec function (`drop_next`, `save_next`, ...), and properties of
  the commands (a dry-run gc never deletes, a save always resets the working
  tree after pushing, a task-filtered list only returns that task, ...) are
  proved over those functions.
- `clock`: the current Unix time, or nothing where the system clock cannot
  give it.
- `report`: the text each MCP tool answers with, built from a command's result.

`app/` holds the `wip` binary: the command line, the loop that runs `git` for
the commands, the terminal output, and the MCP server's protocol handling.
