//! Core of a small note-taking tool: the rules for indexing a directory of
//! notes, reading the user's answers, and deciding what to do on disk.
//!
//! The crate performs no input or output itself. Everything it needs from the
//! outside world (directory listings, lines typed by the user, the outcome of
//! filesystem operations) is handed to it as plain values, and everything it
//! wants done there is handed back as plain values. `session` ties the parts
//! together into a whole run.

pub mod action;
pub mod distinct;
pub mod index;
pub mod path;
pub mod probe;
pub mod prompt;
pub mod session;
pub mod text;
