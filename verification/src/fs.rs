//! Storage units: the capability contract every backend honors, its error
//! taxonomy, and the in-memory reference implementation.

pub mod file;
pub mod memory_file;

pub use file::File;
pub use file::FileError;
pub use memory_file::MemoryFile;
