# terminal_file_explorer

A terminal file explorer whose logic is verified with Verus.

- `src/` is the library: the directory listing (sorting, filtering, hidden
  files, marked paths, the cursor and the `..` row), the undo/redo editor and
  the plain line buffer, the menu bar, the command palette, the dialog, the
  parsing of `git` output, the preview and screen texts, the settings, and
  `explorer`, which turns key presses and mouse events into a new state and a
  list of effects (file, git and settings work) for the caller to perform.
  The syntax highlighting of previews and of the editor is called from the
  library through syntect; what syntect returns is named, not restated, and
  the cutting of the highlighted lines to the preview's size is proved.
  Every function carries a contract that Verus proves.
- `app/` is the terminal program: it reads events with crossterm, performs the
  effects (file system, `git`, the configuration file, the default
  application), reads ID3 tags, and draws the screen with ratatui.
- `tests/` runs the library on concrete values.

Notes on the design:

- The marked paths are a `Vec<String>` with the invariant that no path (as a
  path, component by component) occurs twice, in place of a hash set of
  paths. The vector keeps the order in which paths were marked, so the
  operations on marked files act in a fixed order, and its contents can be
  stated exactly; a hash set keyed by strings gives the proofs nothing to
  work with, since its contents cannot be related to the path equality the
  explorer uses.
- Ctrl+F, Ctrl+G and Ctrl+J open the command palette as a file search over
  the listing, a grep over the lines of the listed files, and a list of the
  bookmarks. Typing narrows the list (case-insensitively); Enter selects the
  chosen file in the listing, or enters the chosen directory. For grep the
  program reads the files and hands their texts to the library, which splits
  them into lines and filters them.
- Cycling the theme is decided in the library (the next name among the
  themes, recorded in the settings); the program only draws in it.
