//! Audio sample conversion, level measurement and WAV encoding.
pub mod levels;
pub mod recorder;
