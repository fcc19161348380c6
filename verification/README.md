# machina

A keyboard-driven terminal file manager with vim-style keys, tabs, a split
view, a preview pane, persistent selection, chords with a which-key popup,
archives, bulk rename through `$EDITOR`, a trash browser and a folder-size
cache.

## Layout

- `src/` — the library, verified with Verus. It holds the decisions: what
  each key does in every mode (`keys`), the application state and its
  invariants (`app`, `folder`, `input`, `keybind`, `undo`), listing order
  and filters (`sort`, `folder`), clipboard operations and their reports
  (`ops`), the screen's texts and popup geometry (`view`, `preview`), the text preview and its highlighting (`highlight`), config
  merging and the bookmark file rewrite (`config`, `theme`), git status
  parsing (`git`), shell templates (`shell`), archive commands (`archive`),
  bulk-rename plans (`bulk_rename`), the size cache (`dir_size`), icons
  (`icons`), openers (`opener`), image scaling and the kitty image protocol framing (`kgp`) and
  which directories to watch (`watch`). Public `law_*` proof functions state
  properties that span several operations.
- `app/` — the program around it: the terminal loop, reading directories,
  running programs, the clipboard, file operations, the config and cache
  files, reading the files to preview, and painting with ratatui.
- `tests/` — tests of the library on concrete values.
