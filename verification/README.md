# crank

Crank is a terminal application for discovering, inspecting and running a
curated catalog of shell scripts. This crate is its library, verified with
Verus, plus the program around it.

- `src/` — the verified library:
  - `catalog`: the catalog model, identifiers and validation (schema version,
    duplicate IDs, category references, safe script paths, executable names,
    shebang lines);
  - `bundled`: the catalog compiled into the program (harmless fixtures);
  - `host`: platform names, executable lookup on `PATH` and action availability;
  - `runtime`: choosing an action to launch and building its command;
  - `execution`: results and events of a running action;
  - `tui`: the browser as a state machine (navigation, search, confirmation,
    execution view) and the text and layout it draws;
  - `messages`: user-facing error texts and reports;
  - `paths`, `text`: slash-separated paths and string helpers.
- `app/` — the `crank` command: argument parsing, reading local catalogs
  (TOML), extracting files to a temporary directory, the pseudo-terminal
  session and the terminal interface.
- `tests/` — tests of the library.
