# libguix

A client library for GNU Guix and the decision logic of a desktop front
end for it.

- `src/` is the library, verified with Verus: the parsers for guix's
  textual and S-expression output, the line splitter and REPL framer, the
  progress state machine, channel-file validation and editing rules, the
  argument vectors of every guix command, and the pure decisions of the
  GUI (search, channels, system and catalog state, settings, desktop
  menu refresh). Contracts are stated over spec functions and views.
- `app/` is the I/O around it in ordinary Rust: spawning `guix` and
  `pkexec`, the `guix repl` actor, streamed operations, the channels and
  settings files, the HTTP catalogs, and the live log, whose rows and
  scrollback paging are read off the vt100 terminal emulator's own state.
- `tests/` exercises the library through its public API.
