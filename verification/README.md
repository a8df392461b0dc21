# f5h

A two-pane terminal file manager with a git submenu, a directory tree and a
process viewer. The decisions of the program are a Verus library in `src/`,
proved against their contracts; `app/` is the terminal program around it.

## Layout

- `src/app.rs`: the listing (entries, cursor, tags, pages of columns,
  search) with the laws of the cursor moves.
- `src/keys.rs`, `src/input.rs`, `src/dialogs.rs`: the key handlers of the
  git, file, sort, command, search, run and directory jump dialogs, each a
  step from the old state and a key to the new state and a command.
- `src/ops.rs`, `src/nav.rs`, `src/tree.rs`: file operation checks, the copy
  plan at conflicts, entering directories, and the directory tree.
- `src/keymap.rs`, `src/config.rs`, `src/startup.rs`, `src/lscolors.rs`,
  `src/style.rs`, `src/namemap.rs`: settings, key bindings and colours.
- `src/proc.rs`, `src/procview.rs`: parsing `/proc`, sorting processes, the
  signal menu and the process viewer's steps.
- `src/fs_utils.rs`, `src/datetime.rs`, `src/display.rs`, `src/view.rs`,
  `src/text.rs`, `src/num.rs`, `src/order.rs`, `src/fields.rs`: command
  lines, git arguments and output, dates, display widths and the texts the
  screen shows.
- `app/`: reading directories and `/proc`, running git and programs, the
  terminal loop and drawing with `ratatui`.
- `tests/`: tests of the library.

Outside crates called from `src/` (`unicode-width`, `regex`, `chrono`) are
reached through a few trusted wrappers whose contracts are stated next to
them.
