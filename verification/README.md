# Neko Legends Control Center, verified core

The logic of the Neko Legends Control Center launcher, written in Verus and
proved against its contracts: the tools catalog and its cleaning, the merge of
saved app state into the catalog, install and download bookkeeping, release
and asset selection, version comparison, file-name rules, the Agent API
registry and its port conflicts, agent control commands, launcher self-update
decisions, and window sizing.

- `src/` is the verified library. `src/laws.rs` holds the properties that span
  several functions (version order, category normalization, catalog merge,
  download bookkeeping, layout, safe file names, window bounds).
- `tests/` runs the library on concrete values.
- `app/` is the Tauri desktop shell: file, network, process and registry work,
  the JSON forms of the library's types, and the commands the front end calls.
