//! Verified core of `hjkl`, a small keyboard remapper.
//!
//! Tap the layer key alone to type it; hold it and press `h`/`j`/`k`/`l` for
//! the arrow keys; hold it and press any other key for the platform shortcut
//! modifier plus that key. This crate holds the layer state machine, the key
//! tables, argument parsing and the pure pieces of the platform adapters.

pub mod command;
pub mod report;
pub mod error;
pub mod text;
pub mod keys;
pub mod keymap;
pub mod layer;
pub mod cli;
pub mod mac_tap;
pub mod win_hook;
pub mod mac_service;
pub mod win_service;
pub mod help;
pub mod unsupported;
