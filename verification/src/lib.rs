//! Verified logic of a command-line client and terminal file browser for a
//! cloud storage service.
pub mod browse;
pub mod cli;
pub mod put;
pub mod text;
