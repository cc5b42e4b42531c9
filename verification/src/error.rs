//! Error type for AFFS operations.
use vstd::prelude::*;

verus! {

/// Error type for AFFS operations.
#[derive(Debug, Clone, Copy, PartialEq, Eq, Structural)]
pub enum AffsError {
    /// Block read failed.
    BlockReadError,
    /// Invalid DOS type signature.
    InvalidDosType,
    /// Invalid block type.
    InvalidBlockType,
    /// Invalid secondary type.
    InvalidSecType,
    /// Checksum verification failed.
    ChecksumMismatch,
    /// Block number out of valid range.
    BlockOutOfRange,
    /// Entry not found.
    EntryNotFound,
    /// Name too long (max 30 characters).
    NameTooLong,
    /// Invalid filesystem state.
    InvalidState,
    /// End of file reached.
    EndOfFile,
    /// Not a file entry.
    NotAFile,
    /// Not a directory entry.
    NotADirectory,
    /// Buffer too small.
    BufferTooSmall,
    /// Invalid data block sequence.
    InvalidDataSequence,
    /// Not a symlink entry.
    NotASymlink,
    /// Symlink target too long.
    SymlinkTooLong,
}

impl AffsError {
    /// A short human-readable description of the error.
    pub fn message(&self) -> (r: &'static str)
        ensures r@.len() > 0,
    {
        let r = match self {
            AffsError::BlockReadError => "block read error",
            AffsError::InvalidDosType => "invalid DOS type signature",
            AffsError::InvalidBlockType => "invalid block type",
            AffsError::InvalidSecType => "invalid secondary type",
            AffsError::ChecksumMismatch => "checksum mismatch",
            AffsError::BlockOutOfRange => "block out of range",
            AffsError::EntryNotFound => "entry not found",
            AffsError::NameTooLong => "name too long",
            AffsError::InvalidState => "invalid filesystem state",
            AffsError::EndOfFile => "end of file",
            AffsError::NotAFile => "not a file",
            AffsError::NotADirectory => "not a directory",
            AffsError::BufferTooSmall => "buffer too small",
            AffsError::InvalidDataSequence => "invalid data block sequence",
            AffsError::NotASymlink => "not a symlink",
            AffsError::SymlinkTooLong => "symlink target too long",
        };
        proof {
            reveal_strlit("block read error");
            reveal_strlit("invalid DOS type signature");
            reveal_strlit("invalid block type");
            reveal_strlit("invalid secondary type");
            reveal_strlit("checksum mismatch");
            reveal_strlit("block out of range");
            reveal_strlit("entry not found");
            reveal_strlit("name too long");
            reveal_strlit("invalid filesystem state");
            reveal_strlit("end of file");
            reveal_strlit("not a file");
            reveal_strlit("not a directory");
            reveal_strlit("buffer too small");
            reveal_strlit("invalid data block sequence");
            reveal_strlit("not a symlink");
            reveal_strlit("symlink target too long");
        }
        r
    }
}

} // verus!
