# rsime

A command-line Chinese input tool built on the RIME input method engine, for
terminals without a graphical input method: an interactive TUI, a stdio mode
for editor integration (one key per line in Vim notation, one JSON response
per key), schema installation and listing, and shell completions with key
bindings.

## Layout

- `src/` — the verified library:
  - `keys.rs`: key codes, modifier masks, `KeyEvent`, the Vim key notation;
  - `stdio.rs`: what the stdio mode does with each line and what it answers;
  - `tui.rs`: the TUI's committed text and cursor, what each key does, the
    two lines it draws;
  - `prompt.rs`: styles as plain values, the shell prompt as styled spans
    (text and colours as the ANSI parser reads them), escape stripping, a
    line that sets the preedit inside a shell command line;
  - `shell.rs`: shells, key binding scripts (which hand the TUI no shell
    context), bash version parsing, the command-line context format, schema
    install targets;
  - `engine.rs`: the engine's context, commit and status as plain values,
    and how deployment is judged from its notifications;
  - `oneshot.rs`: converting a whole key sequence at once;
  - `dirs.rs`: the data directories;
  - `text.rs`: character-level string functions with their specifications.
- `app/` — the program: command line, terminal, files, child processes,
  JSON output, and the calls into librime (`app/rime.rs`).
- `tests/` — tests of the library.
