//! A terminal file explorer's logic: the directory listing with its sorting,
//! filtering and marked paths, a line editor with undo and redo, the menu bar,
//! the command palette and the dialog, the parsing of `git` output, the texts
//! of the previews and of the screen, the settings, and the explorer that
//! turns key presses and mouse events into a new state and the file, git and
//! settings work for its caller to do.
pub mod text;
pub mod editor;
pub mod paths;
pub mod state;
pub mod keys;
pub mod menu;
pub mod command_palette;
pub mod git;
pub mod preview;
pub mod config;
pub mod dialog;
pub mod explorer;
pub mod ui;
