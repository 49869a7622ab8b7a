//! Error kinds surfaced by the disk core.

use vstd::prelude::*;

verus! {

/// Why a torrent could not be allocated.
#[derive(Clone, Copy, Debug, PartialEq, Eq, Structural)]
pub enum NewTorrentError {
    /// A torrent with the same id is already in the registry.
    AlreadyExists,
    /// The piece hash buffer does not hold one 20-byte digest per piece, or
    /// the storage layout is self-inconsistent.
    InvalidMetadata,
    /// The destination file could not be created or pre-allocated.
    Io,
}

/// Why a batch of blocks could not be written.
#[derive(Clone, Copy, Debug, PartialEq, Eq, Structural)]
pub enum WriteError {
    /// A block named a piece outside the torrent, a range outside its piece,
    /// or carried a payload of the wrong length.
    InvalidBlock,
    /// The positioned write into the destination file failed.
    Io,
}

/// Why a command could not be issued to the disk task.
#[derive(Clone, Copy, Debug, PartialEq, Eq, Structural)]
pub enum Error {
    /// The command inbox is closed: the disk task has exited.
    ChannelClosed,
}

} // verus!
