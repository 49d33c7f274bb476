# gitlogue (verified core)

gitlogue is a terminal screensaver that replays Git commits as if someone
were typing them. This crate holds its decisions and view models, each with
a contract proved by Verus:

- `cli` — command-line decisions: playback order, the repository root found
  from what the file system reports, ignore patterns, the first commit to
  request, and settings merged command line over settings file.
- `config` — the settings, their defaults, the text of a new settings file
  and the in-place update of an existing one through `toml_edit`.
- `ui` — the playback controller: screen states, pausing and stepping,
  history navigation, menus, and when to fetch the next commit. It queues
  commands for the animation engine and answers with the fetch to perform.
- `screen` — the pane layout, centred boxes, the typing dialog, menu and
  help texts.
- `editor`, `file_tree`, `status_bar`, `terminal` — what each pane shows.
- `syntax` — token classes, capture-name mapping, injected-language spans.
- `highlight` — the highlighter: tree-sitter's queries over a source text
  (Dart and Nix grammars), injections highlighted up to four levels deep.
- `theme`, `commit`, `player`, `text` — shared data and text helpers.

`app/` is the program around it: argument parsing with `clap`, settings
file I/O with `toml` and `serde`, and file-system queries.
