# gitoto

A terminal panel for the Git repositories under a directory: their status,
changed files and diffs, a commit graph with branch folding and search, and
push, pull, publish and commit actions.

## Layout

- `src/` — the library, verified with Verus. It holds the logic: commit-graph
  lane layout and branch segments, folding and search, branch labels,
  remote URL handling, the repository list and its order, the file list and
  its marks, dialogs and the context menu, key and mouse routing, status-query
  bookkeeping, git command planning, and the styled text of every line drawn.
  `src/laws.rs` states properties that span several operations.
- `app/` — the program around it: terminal I/O, the event loop, git access
  through `git2` and the `git` command, the file watcher, the configuration
  file, and drawing with `ratatui`.
- `tests/` — tests of the library.
