# task_stack

The logic of a corner-pinned heads-up display for juggling parallel work
(tasks bound to AeroSpace workspaces), written in Verus.

- `src/` is the verified library:
  - `text`: whitespace trimming, substring search and splitting output into
    non-blank lines, each proved against a short specification;
  - `aerospace`: the `aerospace` subcommands, how a finished invocation is
    read (missing tool, disabled server, failure, success), workspace lists,
    and capturing/replaying multi-monitor scenes;
  - `tasks`: task records, the fields a new task and a state change get,
    reordering, and the clock/UUID calls behind them;
  - `panel`: settings and their defaults, corner placement and snapping,
    hotkey bindings, key events, the tray menu and jump plans.
- `tests/` exercises the library on concrete values.
- `app/` is ordinary Rust around it: running the CLI, the SQLite store and
  the commands the user interface calls.
