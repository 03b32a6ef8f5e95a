# tmux_organizer

A terminal UI for browsing and rearranging tmux sessions, windows and panes,
with its logic verified by Verus.

- `src/` is the verified library:
  - `text.rs`: string helpers (decimal numbers, whitespace trimming, splitting
    into fields and lines) with their laws;
  - `model.rs`: sessions, windows, panes, targets and navigation rows;
  - `order.rs`: the stable sort by index and its laws;
  - `tmux.rs`: the `list-panes` format, the parser that turns its output into a
    session tree, and the tmux command lines the program runs;
  - `app.rs`: the flattened navigation list and the application state machine:
    each key press gives the next state and, where tmux has to be run, the
    command; the result of the command is handed back through `App::resume`;
  - `ui.rs`: the text of every panel, the help and the status line, and the
    centred popup rectangle (laid out by ratatui).
- `app/main.rs` runs tmux, reads the keyboard through crossterm and draws the
  screen with ratatui, driving the state machine of `src/app.rs`.
- `tests/` holds the tests.
