//! Hotkey text, its canonical form, and what the hotkey backend registers.
pub mod matcher;
pub mod service;
