//! A verified core for a sectioned to-do list editor.
//!
//! The library holds the document tree (sections of tasks), the
//! interaction-mode state machine that governs in-place editing, and a
//! persistence codec.  A thin frontend drives it: it reports each frame's
//! input events, applies them through the controller, and draws the
//! commands the controller returns.

pub mod codec;
pub mod controller;
pub mod model;
pub mod render;
