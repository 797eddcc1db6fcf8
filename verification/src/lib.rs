//! Protocol-neutral storage kernel.
//!
//! Callers can treat remote storage *like* a local filesystem: connect, list,
//! read and write at any offset. Three things about remote storage genuinely
//! differ, and the kernel admits that rather than hide it. Latency is orders of
//! magnitude larger, so a [read-ahead window](cache) saves round-trips. Asking
//! for metadata entry by entry is slow, so a [listing](listing) carries it.
//! Network faults are routine, so an [`Error`] tells a lost session from a
//! per-file failure.
//!
//! The modules decide; they do not perform I/O. What a decision needs from the
//! outside comes in as a value, and what it asks of the outside goes out as one.
//!
//! - [`path`], [`entry`], [`error`], [`capabilities`], [`backend`], [`registry`]
//!   and [`listing`] are the contract that every backend follows.
//! - [`cache`] is the read-ahead window.
//! - [`local`] and [`smb`] are the backends, [`network`] what a platform needs
//!   before it opens sockets.
//! - [`facade`] is what other languages bind to, [`cli`] what the command line
//!   prints and moves.
//! - [`text`] and [`names`] are texts and maps keyed by them.

pub mod backend;
pub mod cache;
pub mod capabilities;
pub mod cli;
pub mod entry;
pub mod error;
pub mod facade;
pub mod listing;
pub mod local;
pub mod names;
pub mod network;
pub mod path;
pub mod registry;
pub mod smb;
pub mod text;

pub use backend::{FileHandle, OpenMode, StorageBackend};
pub use capabilities::Capabilities;
pub use entry::{Entry, EntryKind, Metadata};
pub use error::{Error, Result};
pub use path::VfsPath;
pub use registry::{BackendDriver, BackendRegistry, Credentials, Endpoint};
