//! Verified core of gitlogue, a terminal screensaver that replays Git
//! commits as if someone were typing them: command-line decisions,
//! configuration text, pane view models, syntax-span handling and the
//! playback controller.

pub mod text;
pub mod cli;
pub mod syntax;
pub mod commit;
pub mod file_tree;
pub mod theme;
pub mod editor;
pub mod status_bar;
pub mod terminal;
pub mod player;
pub mod ui;
pub mod screen;
pub mod config;
pub mod highlight;
