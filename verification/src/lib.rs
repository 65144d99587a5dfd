//! A minimal storage-backend abstraction: a capability contract for
//! addressable, byte-oriented storage units, together with an in-memory
//! reference implementation.

pub mod common;
pub mod fs;
