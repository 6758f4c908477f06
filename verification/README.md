# harnessd

A local scratchpad daemon for editors: external source marks, threads
attached to them, scratch files generated by Codex in a read-only sandbox,
settings, and a few editor helpers (completions from cached proposals, an
LSP bridge, a terminal dashboard).

## Layout

- `src/` is the library, written in Verus. Every function there carries a
  contract and is proved against it: marks and threads with their
  reanchoring and stepping rules, the scratch prompt and artifact rules, the
  ACP and LSP sessions as state machines, request planning and dispatch,
  anchor detection on syntax trees, the dashboard's panels. Calls into
  outside crates (serde_json readers, tree-sitter, `dirs`) sit behind small
  trusted wrappers whose contracts are stated in their doc comments.
- `src/*::law_*` proof functions state the properties that span several
  calls (a created mark is listed, an update reads back, a reanchor
  settles, an agent never gets write access, ...).
- `tests/` runs the library on concrete values, with the real outside
  crates linked.
- `app/` is the program around the library: command line, sockets, files,
  processes, SQLite, the terminal UI. It hands the library plain values and
  does what the library decides.
