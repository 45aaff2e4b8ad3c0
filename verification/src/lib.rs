//! Voice-driven region clicking: recognised speech is classified into a small
//! closed set of commands, queued, and turned into click plans on named screen
//! regions.

pub mod audio_detector;
pub mod channel;
pub mod classifier;
pub mod command;
pub mod error;
pub mod gui;
pub mod jitsi_controller;
pub mod roi_controller;
pub mod text;
