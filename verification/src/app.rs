//! Decisions of the desktop runtime: the recording state machine and the
//! settings commands of the settings window.
pub mod state;
pub mod commands;
