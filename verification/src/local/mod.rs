//! The local filesystem backend: what it decides, apart from touching files.
//!
//! It keeps the abstraction honest: any concept that only makes sense for a
//! network protocol is impossible to implement here.

pub mod backend;
pub mod driver;
