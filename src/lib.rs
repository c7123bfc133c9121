//! State and control core of a keyboard-driven file browser: a filtered
//! cache of directory entries, a hover cursor and multi-selection, a modal
//! key dispatcher, and the controller that reconciles asynchronous results.

pub mod controller;
pub mod entry;
pub mod mode;
pub mod scoring;
pub mod store;
pub mod theme;

pub use controller::{has_distinct_paths, FileDeleteError, Fls, Message, OpenError, Task};
pub use entry::{DisplayedFile, File, MAX_SCORE};
pub use mode::{Action, Key, KeyEvent, Mode, SearchMode, SettingsInputKind, SettingsView, View};
pub use scoring::{score, score_of_match};
pub use store::Files;
pub use theme::{row_style, search_style, ThemedButton, ThemedText};
