# lazygitrs

The logic of a terminal git client, verified with Verus.

- `src/` is the library: reading what git says, resolving conflicts, what keys and the
  mouse do, windows, lists, diffs and what is loaded in the background. Every function
  states what it returns. Promises that span functions stand at the end of a file as
  public proof functions.
- `app/` is the program around it: processes, files, threads and the terminal.
- `tests/` runs the library from outside.

What comes from other crates is called in `src/gui/textarea.rs` (the text editor widget of
`tui-textarea`) and in `src/gui/areas.rs` (the layout of `ratatui`); the doc comments there
say what is relied upon.
