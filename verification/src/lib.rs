//! Window geometry, pane layout decisions, input broadcasting and
//! preference mappings of a tiling terminal emulator, as plain values.

pub mod dnd;
pub mod geometry;
pub mod layout;
pub mod notifications;
pub mod preferences;
pub mod quake;
pub mod session_view;
pub mod terminal_pane;
pub mod text;
pub mod types;
pub mod window;
