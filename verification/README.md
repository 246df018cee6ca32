# termassist

A split-terminal assistant: the user's shell in one pane, a CLI agent in the
other, in the terminal already in use. The agent reads the shell pane over a
local socket (`termassist read-pane`).

## Layout

- `src/` — the library, verified with Verus:
  - `config.rs` — layouts, key events and key bindings (the `Ctrl+g` syntax
    and its parser), the configuration and its defaults, the start-up
    decision (setup wizard, TUI or failure) and the default config file.
  - `input.rs` — key and mouse handling: chrome bindings, the prefix key,
    scroll mode, divider dragging, wheel scrolling and the bytes a key sends
    to a pane.
  - `app.rs` — the application state: panes, focus, layout, split ratio,
    zoom, the agent pane's life cycle and the pane rectangles.
  - `term.rs` — a pane's terminal emulator (vt100) and the capture of its
    scrollback and screen as text.
  - `ipc.rs` — what the IPC server answers and how a client reads the
    answer; socket names and discovery.
  - `pane.rs`, `ui.rs`, `skill.rs`, `dbglog.rs`, `text.rs` — panes, titles,
    the bundled skill, debug-log formatting and text helpers.
- `tests/` — tests of the library.
- `app/` — the program around the library: command line, PTYs, sockets,
  files, the terminal UI and its event loop.

Contracts are stated over Verus spec functions; the laws the library keeps
across operations are the public `law_*` proof functions.
