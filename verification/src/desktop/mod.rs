//! The desktop shell: settings, login start, and what the window shows and does.

pub mod config;
pub mod input;
pub mod shell;
pub mod startup;
pub mod status;
