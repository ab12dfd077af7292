//! A fuzzy finder for the tabs, panes and sessions of a terminal multiplexer:
//! the matching, the selection state machine and the text of the screen.

pub mod text;
pub mod style;
pub mod matching;
pub mod model;
pub mod panes;
pub mod navigation;
pub mod state;
pub mod render;
pub mod laws;
