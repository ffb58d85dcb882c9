//! The boundary that the `simple-ls` template declares for its own
//! filesystem access: listing a directory and reading file metadata.
use crate::filesystem::FsError;
use std::time::SystemTime;
use vstd::prelude::*;

verus! {

/// `std::time::SystemTime`, carried through opaque.
#[verifier::external_type_specification]
#[verifier::external_body]
pub struct ExSystemTime(std::time::SystemTime);

/// Represents a single directory entry.
pub struct DirEntry {
    pub name: String,
    pub is_dir: bool,
}

/// File metadata returned for long-format display.
pub struct Metadata {
    pub size: u64,
    pub permissions: u32,
    pub modified: SystemTime,
    pub is_dir: bool,
}

/// The Filesystem boundary trait of the template.
///
/// Provides an abstraction over filesystem operations needed by the CLI.
/// Implementations read directory contents and file metadata from the OS.
pub trait Filesystem {
    /// List all entries in the given directory.
    fn list_entries(&self, path: &str) -> Result<Vec<DirEntry>, FsError>;

    /// Get metadata for a specific file or directory.
    fn get_metadata(&self, path: &str) -> Result<Metadata, FsError>;
}

} // verus!
