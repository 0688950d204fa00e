//! An interactive list selector: the selection state, the scrolling window,
//! the screen text, and the key-driven session, all verified.
pub mod text;
pub mod content;
pub mod tui_selector;
pub mod laws;
pub mod session;
pub mod selector_ctl;
