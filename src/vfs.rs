use vstd::prelude::*;

verus! {

/// Kinds of filesystem node.
#[derive(Clone, Copy, Debug, PartialEq, Eq, Structural)]
pub enum FileType {
    Regular,
    Directory,
    Device,
    Symlink,
}

/// How a file is opened.
#[derive(Clone, Copy, Debug, PartialEq, Eq, Structural)]
pub struct OpenFlags {
    pub read: bool,
    pub write: bool,
    pub append: bool,
    pub create: bool,
    pub truncate: bool,
}

impl OpenFlags {
    /// Reading only.
    pub fn read_only() -> (r: OpenFlags)
        ensures
            r == (OpenFlags { read: true, write: false, append: false, create: false, truncate: false }),
    {
        OpenFlags { read: true, write: false, append: false, create: false, truncate: false }
    }

    /// Writing only.
    pub fn write_only() -> (r: OpenFlags)
        ensures
            r == (OpenFlags { read: false, write: true, append: false, create: false, truncate: false }),
    {
        OpenFlags { read: false, write: true, append: false, create: false, truncate: false }
    }

    /// Reading and writing.
    pub fn read_write() -> (r: OpenFlags)
        ensures
            r == (OpenFlags { read: true, write: true, append: false, create: false, truncate: false }),
    {
        OpenFlags { read: true, write: true, append: false, create: false, truncate: false }
    }
}

/// Errors of the filesystem layer.
#[derive(Clone, Copy, Debug, PartialEq, Eq, Structural)]
pub enum VfsError {
    NotFound,
    AlreadyExists,
    NotADirectory,
    IsADirectory,
    PermissionDenied,
    InvalidArgument,
    IoError,
    NotImplemented,
}

} // verus!
