//! Core logic of an auto-clicker: the clicking engine's scheduling decisions,
//! hotkey recognition and capture, window-target resolution, and the persisted
//! configuration document, all verified. The surrounding process (UI, OS input
//! injection, file access) lives outside this crate and calls into it.

pub mod config;
pub mod engine;
pub mod hotkey;
pub mod json;
pub mod keys;
pub mod target;
