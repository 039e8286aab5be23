# ctrlr

A command palette over your shell history: fuzzy search, favourites, tags,
collections, and a record of where each command ran. Its logic is written in
Verus and proved against its contracts; the terminal, the database, files and
the clipboard are ordinary Rust around it.

## Layout

- `src/` — the verified library.
  - `picker.rs`: which commands are listed, how they rank, the selection and
    the panes; collections in memory.
  - `state.rs`: commands, ranking scores, the integration offer.
  - `history/`: reading bash, zsh, fish and PowerShell history, folding
    repeats, deduplicating, and the run log.
  - `keymap/`, `config.rs`, `keybind.rs`: key bindings, the config file's
    tables, and rebinding.
  - `help.rs`, `tag_editor.rs`, `collection_dialog.rs`, `import_dialog.rs`,
    `details.rs`, `theme.rs`: the popups and panes.
  - `storage.rs`, `import_plan.rs`, `migrate.rs`: what storage holds, what
    an import writes, and the id migration.
  - `shells/`, `init.rs`, `paths.rs`, `editor.rs`, `hash.rs`, `text.rs`,
    `text_input.rs`, `layout.rs`: shell integration scripts, files and
    paths, the external editor, ids, text and the edit line.
- `app/` — the program: terminal UI, SQLite, file and process I/O.
- `tests/` — tests of the library.

Laws the library keeps are public proof functions named `law_*`.
