//! The kind of a directory entry, as the listing endpoint reports it.

use vstd::prelude::*;

verus! {

/// The kind of a directory entry.
#[derive(Clone, Copy, Debug, PartialEq, Eq, Structural)]
pub enum Type {
    Directory,
    File,
    Unknown,
}

impl Type {
    /// Classify an entry from what the filesystem metadata says of it: a
    /// directory first, a regular file second, anything else unknown.
    pub fn classify(is_dir: bool, is_file: bool) -> (t: Type)
        ensures
            t == (if is_dir {
                Type::Directory
            } else if is_file {
                Type::File
            } else {
                Type::Unknown
            }),
    {
        if is_dir {
            Type::Directory
        } else if is_file {
            Type::File
        } else {
            Type::Unknown
        }
    }
}

} // verus!
