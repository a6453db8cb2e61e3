//! entangle: wiring a git repository so that one `git push` reaches both
//! GitHub and Tangled.
//!
//! This crate holds the verified logic: input sanitization and validation,
//! remote URL construction, the config model (what a config file's text
//! means and the text that stores a config), the
//! `.git/config` text transformations, the decisions of the `setup`, `set`,
//! `init` and `shove` commands, and the message formatting used by the
//! command-line front end. The front end performs the terminal, file and git
//! I/O around it.

pub mod cli;
pub mod config;
pub mod git;
pub mod init;
pub mod json;
pub mod output;
pub mod set_command;
pub mod setup;
pub mod shove;
pub mod text;
pub mod urls;
pub mod validate;
