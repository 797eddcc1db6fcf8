//! The SMB backend: what it decides, apart from talking to a server.

pub mod actor;
pub mod backend;
pub mod copy;
pub mod error;
pub mod ffi;
pub mod file;
pub mod files;
pub mod life;
pub mod path;
pub mod session;
pub mod share;
pub mod status;
