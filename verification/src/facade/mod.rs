//! The facade that other languages bind to: `Kernel`, `Session`, `RemoteFile`.
//!
//! Three objects rather than one, because they have different lifetimes. The
//! kernel holds the registry of backends, one per process. A session is a live
//! connection. A remote file is an open file, and is only valid while its
//! session is.

pub mod error;
pub mod file;
pub mod kernel;
pub mod session;
pub mod types;
