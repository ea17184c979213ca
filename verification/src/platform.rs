//! How the host system replaces a file and makes that last.

use vstd::prelude::*;

verus! {

/// The kind of system that files are written on.
#[derive(Clone, Copy, Debug, PartialEq, Eq, Structural)]
pub enum Platform {
    Windows,
    Other,
}

/// How a staged file takes the place of another.
#[derive(Clone, Copy, Debug, PartialEq, Eq, Structural)]
pub enum Replacement {
    /// A rename over the old file.
    Rename,
    /// A move that returns once it is on disk.
    MoveWriteThrough,
}

/// The replacement that the system offers: Windows moves the file and writes through.
pub fn replace_file(platform: Platform) -> (replacement: Replacement)
    ensures
        replacement == match platform {
            Platform::Windows => Replacement::MoveWriteThrough,
            Platform::Other => Replacement::Rename,
        },
{
    match platform {
        Platform::Windows => Replacement::MoveWriteThrough,
        Platform::Other => Replacement::Rename,
    }
}

/// Whether the directory of a replaced file is to be flushed afterwards. Windows needs
/// none: its replacement writes through.
pub fn sync_parent_directory(platform: Platform) -> (flush: bool)
    ensures
        flush == (platform == Platform::Other),
{
    match platform {
        Platform::Windows => false,
        Platform::Other => true,
    }
}

} // verus!
