//! Core of a global-hotkey launcher overlay: a floating panel that can read
//! the focused external application's selected or edited text and inject text
//! back into it without a perceptible application switch.
//!
//! The library holds the verified logic: the panel visibility state machine,
//! the accessibility-tree reader, the clipboard-and-keystroke injection
//! sequencing, and the focused-application monitor.  The operating-system
//! calls that carry the decisions out live outside the library and consume
//! the plain values these modules produce.

pub mod access;
pub mod apps;
pub mod inject;
pub mod monitor;
pub mod panel;
