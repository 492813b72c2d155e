//! Verified core of a command-line chat client for local language models.

pub mod text;
pub mod timestamp;
pub mod preset;
pub mod choice;
pub mod urls;
pub mod session;
pub mod listing;
pub mod page;
pub mod chat;
pub mod generation;
pub mod cli;
