//! What the command line tool shows and how it moves bytes.

pub mod command;
pub mod format;
pub mod transfer;
