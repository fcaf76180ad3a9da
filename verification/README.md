# g — a trunk-based git facade, with its decisions verified

`g` restricts git to a handful of subcommands suited to trunk-based work:
`g c` (commit with co-authors, pull --rebase, push), `g p`, `g l`, `g s`,
`g d`, `g tt` (time travel), `g r`, `g rv`, `g add-alias`, `g config`,
`g update`, and a stash alarm.

- `src/` is the library, verified with Verus: parsing of co-author
  arguments and alias files, the settings and their repository overrides,
  when an update is due, the daemon records, relative-time targets, and the
  command workflows as state machines that decide each next step from the
  answer to the last one. `src/screenplay/` is a small Screenplay-pattern
  test framework.
- `app/` is the program around it: the command line, running git, files,
  the terminal, sound.
- `tests/` runs the library on concrete cases.
