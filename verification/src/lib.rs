//! Templating support for keeping repositories in line with a shared template:
//! the command line, configuration and its validation, and file-system path handling.

pub mod cli;
pub mod config;
pub mod fs;
