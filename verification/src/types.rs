//! Core types: the storage capability traits, filesystem type and flags,
//! entry types and access bits.
use vstd::prelude::*;

use crate::constants::{
    ACC_ARCHIVE, ACC_DELETE, ACC_EXECUTE, ACC_HOLD, ACC_PURE, ACC_READ, ACC_SCRIPT, ACC_WRITE,
    DOSFS_DIRCACHE, DOSFS_INTL, FFS_DATA_SIZE, OFS_DATA_SIZE, ST_DIR, ST_FILE, ST_LDIR, ST_LFILE,
    ST_LSOFT, ST_ROOT,
};

verus! {

/// Block device trait for reading blocks from storage.
///
/// Implement this trait for your storage medium (file, memory, hardware,
/// etc.). Nothing is assumed about what a read puts into the buffer: all
/// decoding downstream is verified for every possible buffer content.
pub trait BlockDevice {
    /// Read a single 512-byte block into `buf`.
    ///
    /// Returns `Ok(())` on success, `Err(())` on failure.
    fn read_block(&self, block: u32, buf: &mut [u8; 512]) -> Result<(), ()>;
}

/// Sector device trait for reading 512-byte sectors.
///
/// This is used for variable block size support, where the filesystem block
/// size may be larger than 512 bytes. The reader will read multiple sectors
/// to assemble a full block.
pub trait SectorDevice {
    /// Read a single 512-byte sector into `buf`.
    ///
    /// Returns `Ok(())` on success, `Err(())` on failure.
    fn read_sector(&self, sector: u64, buf: &mut [u8; 512]) -> Result<(), ()>;
}

/// Blanket implementation: any BlockDevice is also a SectorDevice.
impl<T: BlockDevice> SectorDevice for T {
    fn read_sector(&self, sector: u64, buf: &mut [u8; 512]) -> Result<(), ()> {
        self.read_block(#[verifier::truncate] (sector as u32), buf)
    }
}

/// Filesystem type.
#[derive(Debug, Clone, Copy, PartialEq, Eq, Structural)]
pub enum FsType {
    /// Original File System.
    Ofs,
    /// Fast File System.
    Ffs,
}

impl FsType {
    /// Returns the data payload size per block.
    pub fn data_block_size(self) -> (r: usize)
        ensures
            self == FsType::Ofs ==> r == OFS_DATA_SIZE,
            self == FsType::Ffs ==> r == FFS_DATA_SIZE,
    {
        match self {
            FsType::Ofs => OFS_DATA_SIZE,
            FsType::Ffs => FFS_DATA_SIZE,
        }
    }
}

/// Entry type in the filesystem.
#[derive(Debug, Clone, Copy, PartialEq, Eq, Structural)]
pub enum EntryType {
    /// Root directory.
    Root,
    /// Directory.
    Dir,
    /// File.
    File,
    /// Hard link to file.
    HardLinkFile,
    /// Hard link to directory.
    HardLinkDir,
    /// Soft link.
    SoftLink,
}

/// The entry type that a secondary-type tag denotes, if any.
pub open spec fn spec_entry_type(sec_type: int) -> Option<EntryType> {
    if sec_type == ST_ROOT {
        Some(EntryType::Root)
    } else if sec_type == ST_DIR {
        Some(EntryType::Dir)
    } else if sec_type == ST_FILE {
        Some(EntryType::File)
    } else if sec_type == ST_LFILE {
        Some(EntryType::HardLinkFile)
    } else if sec_type == ST_LDIR {
        Some(EntryType::HardLinkDir)
    } else if sec_type == ST_LSOFT {
        Some(EntryType::SoftLink)
    } else {
        None
    }
}

impl EntryType {
    /// Create from secondary type value.
    pub fn from_sec_type(sec_type: i32) -> (r: Option<Self>)
        ensures
            r == spec_entry_type(sec_type as int),
    {
        match sec_type {
            ST_ROOT => Some(EntryType::Root),
            ST_DIR => Some(EntryType::Dir),
            ST_FILE => Some(EntryType::File),
            ST_LFILE => Some(EntryType::HardLinkFile),
            ST_LDIR => Some(EntryType::HardLinkDir),
            ST_LSOFT => Some(EntryType::SoftLink),
            _ => None,
        }
    }

    /// Returns true if this is a directory type.
    pub fn is_dir(self) -> (r: bool)
        ensures
            r == (self == EntryType::Root || self == EntryType::Dir || self
                == EntryType::HardLinkDir),
    {
        match self {
            EntryType::Root => true,
            EntryType::Dir => true,
            EntryType::HardLinkDir => true,
            _ => false,
        }
    }

    /// Returns true if this is a file type.
    pub fn is_file(self) -> (r: bool)
        ensures
            r == (self == EntryType::File || self == EntryType::HardLinkFile),
    {
        match self {
            EntryType::File => true,
            EntryType::HardLinkFile => true,
            _ => false,
        }
    }
}

/// Filesystem flags.
#[derive(Debug, Clone, Copy)]
pub struct FsFlags {
    /// International mode enabled.
    pub intl: bool,
    /// Directory cache enabled.
    pub dircache: bool,
}

impl Default for FsFlags {
    /// Flags with every bit clear.
    fn default() -> (r: Self)
        ensures
            !r.intl,
            !r.dircache,
    {
        FsFlags { intl: false, dircache: false }
    }
}

impl FsFlags {
    /// Create flags from DOS type byte.
    pub fn from_dos_type(dos_type: u8) -> (r: Self)
        ensures
            r.intl == ((dos_type & DOSFS_INTL) != 0),
            r.dircache == ((dos_type & DOSFS_DIRCACHE) != 0),
    {
        FsFlags {
            intl: (dos_type & DOSFS_INTL) != 0,
            dircache: (dos_type & DOSFS_DIRCACHE) != 0,
        }
    }
}

/// Access permissions.
#[derive(Debug, Clone, Copy)]
pub struct Access(pub u32);

impl Default for Access {
    /// Access value with every bit clear.
    fn default() -> (r: Self)
        ensures
            r.0 == 0,
    {
        Access(0)
    }
}

impl Access {
    /// Create from raw access value.
    pub fn new(raw: u32) -> (r: Self)
        ensures
            r.0 == raw,
    {
        Access(raw)
    }

    /// Check if delete is protected (inverted in AFFS).
    pub fn is_delete_protected(self) -> (r: bool)
        ensures
            r == ((self.0 & ACC_DELETE) != 0),
    {
        (self.0 & ACC_DELETE) != 0
    }

    /// Check if execute is protected.
    pub fn is_execute_protected(self) -> (r: bool)
        ensures
            r == ((self.0 & ACC_EXECUTE) != 0),
    {
        (self.0 & ACC_EXECUTE) != 0
    }

    /// Check if write is protected.
    pub fn is_write_protected(self) -> (r: bool)
        ensures
            r == ((self.0 & ACC_WRITE) != 0),
    {
        (self.0 & ACC_WRITE) != 0
    }

    /// Check if read is protected.
    pub fn is_read_protected(self) -> (r: bool)
        ensures
            r == ((self.0 & ACC_READ) != 0),
    {
        (self.0 & ACC_READ) != 0
    }

    /// Check if archived flag is set.
    pub fn is_archived(self) -> (r: bool)
        ensures
            r == ((self.0 & ACC_ARCHIVE) != 0),
    {
        (self.0 & ACC_ARCHIVE) != 0
    }

    /// Check if pure (re-entrant) flag is set.
    pub fn is_pure(self) -> (r: bool)
        ensures
            r == ((self.0 & ACC_PURE) != 0),
    {
        (self.0 & ACC_PURE) != 0
    }

    /// Check if script flag is set.
    pub fn is_script(self) -> (r: bool)
        ensures
            r == ((self.0 & ACC_SCRIPT) != 0),
    {
        (self.0 & ACC_SCRIPT) != 0
    }

    /// Check if hold flag is set.
    pub fn is_hold(self) -> (r: bool)
        ensures
            r == ((self.0 & ACC_HOLD) != 0),
    {
        (self.0 & ACC_HOLD) != 0
    }
}

} // verus!
