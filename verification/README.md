# dockpit

A terminal UI for Docker containers: a container list beside live logs or
stats, in-log search, level filtering, copy and export of log lines, and the
container lifecycle from a menu.

The crate is split in two.

- `src/` is the library, verified with Verus: the log model with its level
  filter and paging, the update function that turns each message into the
  next state and the effects to run, the parsing of Docker's replies and log
  lines, the OSC 52 clipboard encoding, and the decisions behind the drawing
  (titles, highlighted search matches, overlay geometry).
  `src/laws.rs` states properties that span several calls.
- `app/` is the program around it: command-line handling, the Docker
  connection, the terminal event loop, the effect runner and the drawing.

`tests/` runs the library on concrete values.
