//! General-purpose utilities shared across the crate.

pub mod random_blob;

pub use random_blob::RandomBlob;
