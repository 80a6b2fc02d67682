# lazyjj

A terminal UI for [Jujutsu](https://jj-vcs.github.io/jj/latest/) in the style
of `lazygit`: persistent panels for changed files, bookmarks, revisions and the
operation log, a diff viewer, one-key actions, and pre-push hooks that can be
set up from a tool picker.

## Layout

- `src/` is the library, verified with Verus. It holds everything the program
  decides:
  - `text.rs`: trimming, splitting, joining and line handling on characters;
  - `jj.rs`: the `jj` commands the client runs and the parsing of their output;
  - `model.rs`: the panel entries, the focus ring and the tool picker;
  - `config.rs`: the configuration model, its validation, and the text that is
    appended to `.lazyjj.toml` or written to `treefmt.toml`;
  - `hooks.rs`: presets, the tool catalog, and the hook run as a state machine;
  - `app.rs`, `setup.rs`, `keys.rs`, `rows.rs`: the interface state, how it
    reacts to keys, ticks and the results of the work it asks for, and the text
    of the list rows.
- `app/` is the program around it: it starts processes, reads and writes
  files, runs the hooks on a thread, reads the keyboard and draws the screen
  with `ratatui`. The interface state never does any of that itself; it returns
  `Request`s, and the program performs each one and hands the result back to
  the `finish_*` method that the request names.
- `tests/` runs the library on concrete values.

## Keys

`Tab`/`Shift+Tab` cycle focus, `1`-`6` jump to a panel, `j`/`k` move, `Enter`
inspects, `J`/`K` scroll the diff, `g`/`G` jump to top or bottom, `r` refreshes,
`d` describe, `n` new change, `b` bookmark, `m` move bookmark, `s` squash,
`a` abandon, `u` undo, `o` restore an operation, `p` runs a `jj` command,
`P` push, `F` fetch, `H` run the hooks, `?` help, `q` quit.
