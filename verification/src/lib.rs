//! Verified core of the VoiceInsert speech-to-text tray utility: hotkey
//! normalization, the recording state machine, settings normalization, audio
//! sample handling, API request rules and the display helpers of the tray and
//! settings window.
pub mod api;
pub mod app;
pub mod audio;
pub mod autostart;
pub mod border_indicator;
pub mod clipboard;
pub mod hotkeys;
pub mod secrets;
pub mod settings;
pub mod sounds;
pub mod text;
pub mod tray;
pub mod ui;
pub mod i18n;
pub mod logging;
pub mod overlay;
