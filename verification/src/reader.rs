//! Main AFFS reader interface.
//!
//! Composes boot-block and root-block decoding with directory iteration,
//! name lookup, file reading and symlink reading for fixed 512-byte-block
//! filesystems.
use vstd::prelude::*;

use crate::block::{spec_hash_name, spec_names_equal, BootBlock, EntryBlock, RootBlock};
use crate::constants::{
    BLOCK_SIZE, BM_VALID, DOSFS_DIRCACHE, DOSFS_FFS, DOSFS_INTL, FLOPPY_DD_SECTORS,
    FLOPPY_HD_SECTORS, HASH_TABLE_SIZE, MAX_COMMENT_LEN, MAX_NAME_LEN, ST_ROOT, T_HEADER,
};
use crate::date::{spec_div50_trunc, AmigaDate};
use crate::dir::{copy_prefix, DirEntry, DirIter};
use crate::error::AffsError;
use crate::file::FileReader;
use crate::symlink::read_symlink_target;
use crate::types::{Access, BlockDevice, EntryType, FsFlags, FsType};
use crate::utf8::{from_utf8, utf8_decode};

verus! {

/// Main AFFS filesystem reader.
///
/// Provides read-only access to an AFFS/OFS filesystem image with the
/// standard 512-byte block size.
pub struct AffsReader<'a, D: BlockDevice> {
    device: &'a D,
    /// Boot block info.
    boot: BootBlock,
    /// Root block info.
    root: RootBlock,
    /// Calculated root block number.
    root_block: u32,
    /// Total blocks on device.
    total_blocks: u32,
}

impl<'a, D: BlockDevice> AffsReader<'a, D> {
    /// The decoded root block keeps its name length within bounds, and the
    /// root block number lies on the device.
    pub closed spec fn wf(&self) -> bool {
        self.root.name_len <= MAX_NAME_LEN && self.root_block < self.total_blocks
    }

    /// The decoded boot block.
    pub closed spec fn spec_boot(&self) -> BootBlock {
        self.boot
    }

    /// The decoded root block.
    pub closed spec fn spec_root(&self) -> RootBlock {
        self.root
    }

    /// The root block number in use.
    pub closed spec fn spec_root_block(&self) -> u32 {
        self.root_block
    }

    /// The total number of blocks on the device.
    pub closed spec fn spec_total_blocks(&self) -> u32 {
        self.total_blocks
    }

    /// The block device the reader works on.
    pub closed spec fn spec_device(&self) -> &'a D {
        self.device
    }

    /// The filesystem type from the boot block's flag byte.
    pub open spec fn spec_fs_type(&self) -> FsType {
        if (self.spec_boot().dos_type@[3] & DOSFS_FFS) != 0 {
            FsType::Ffs
        } else {
            FsType::Ofs
        }
    }

    /// Whether international name folding is enabled.
    pub open spec fn spec_is_intl(&self) -> bool {
        (self.spec_boot().dos_type@[3] & DOSFS_INTL) != 0
    }

    /// The disk name bytes.
    pub open spec fn spec_disk_name(&self) -> Seq<u8> {
        self.spec_root().disk_name@.subrange(0, self.spec_root().name_len as int)
    }

    /// Create a new AFFS reader for a standard DD floppy (880KB).
    pub fn new(device: &'a D) -> (r: Result<Self, AffsError>)
        ensures
            r matches Ok(a) ==> a.wf() && a.spec_total_blocks() == FLOPPY_DD_SECTORS
                && a.spec_root_block() < FLOPPY_DD_SECTORS && a.spec_root_block() == (
            if a.spec_boot().root_block != 0 {
                a.spec_boot().root_block
            } else {
                FLOPPY_DD_SECTORS / 2
            }),
            // The stored boot and root blocks really decoded: the "DOS"
            // signature and the root block's type tags are in place.
            r matches Ok(a) ==> a.spec_boot().dos_type@[0] == 68 && a.spec_boot().dos_type@[1]
                == 79 && a.spec_boot().dos_type@[2] == 83 && a.spec_root().block_type == T_HEADER
                && a.spec_root().sec_type == ST_ROOT,
            r matches Err(e) ==> e == AffsError::BlockReadError || e == AffsError::InvalidDosType
                || e == AffsError::ChecksumMismatch || e == AffsError::BlockOutOfRange || e
                == AffsError::InvalidBlockType || e == AffsError::InvalidSecType,
    {
        Self::with_size(device, FLOPPY_DD_SECTORS)
    }

    /// Create a new AFFS reader for an HD floppy (1.76MB).
    pub fn new_hd(device: &'a D) -> (r: Result<Self, AffsError>)
        ensures
            r matches Ok(a) ==> a.wf() && a.spec_total_blocks() == FLOPPY_HD_SECTORS
                && a.spec_root_block() < FLOPPY_HD_SECTORS && a.spec_root_block() == (
            if a.spec_boot().root_block != 0 {
                a.spec_boot().root_block
            } else {
                FLOPPY_HD_SECTORS / 2
            }),
            // The stored boot and root blocks really decoded: the "DOS"
            // signature and the root block's type tags are in place.
            r matches Ok(a) ==> a.spec_boot().dos_type@[0] == 68 && a.spec_boot().dos_type@[1]
                == 79 && a.spec_boot().dos_type@[2] == 83 && a.spec_root().block_type == T_HEADER
                && a.spec_root().sec_type == ST_ROOT,
            r matches Err(e) ==> e == AffsError::BlockReadError || e == AffsError::InvalidDosType
                || e == AffsError::ChecksumMismatch || e == AffsError::BlockOutOfRange || e
                == AffsError::InvalidBlockType || e == AffsError::InvalidSecType,
    {
        Self::with_size(device, FLOPPY_HD_SECTORS)
    }

    /// Create a new AFFS reader with a specific block count.
    ///
    /// Reads and validates the boot block (sectors 0-1), determines the
    /// root block number (the boot block's stored pointer when nonzero,
    /// else the midpoint of the device), validates that it is in range,
    /// then reads and validates the root block.
    pub fn with_size(device: &'a D, total_blocks: u32) -> (r: Result<Self, AffsError>)
        ensures
            r matches Ok(a) ==> a.wf() && a.spec_total_blocks() == total_blocks
                && a.spec_root_block() < total_blocks && a.spec_root_block() == (
            if a.spec_boot().root_block != 0 {
                a.spec_boot().root_block
            } else {
                total_blocks / 2
            }),
            // The stored boot and root blocks really decoded: the "DOS"
            // signature and the root block's type tags are in place.
            r matches Ok(a) ==> a.spec_boot().dos_type@[0] == 68 && a.spec_boot().dos_type@[1]
                == 79 && a.spec_boot().dos_type@[2] == 83 && a.spec_root().block_type == T_HEADER
                && a.spec_root().sec_type == ST_ROOT,
            r matches Err(e) ==> e == AffsError::BlockReadError || e == AffsError::InvalidDosType
                || e == AffsError::ChecksumMismatch || e == AffsError::BlockOutOfRange || e
                == AffsError::InvalidBlockType || e == AffsError::InvalidSecType,
    {
        // Read boot block (2 sectors)
        let mut half0 = [0u8; BLOCK_SIZE];
        let mut half1 = [0u8; BLOCK_SIZE];
        match device.read_block(0, &mut half0) {
            Ok(()) => (),
            Err(()) => {
                return Err(AffsError::BlockReadError);
            },
        }
        match device.read_block(1, &mut half1) {
            Ok(()) => (),
            Err(()) => {
                return Err(AffsError::BlockReadError);
            },
        }
        let mut boot_buf = [0u8; 1024];
        let mut i: usize = 0;
        while i < BLOCK_SIZE
            invariant
                i <= BLOCK_SIZE,
            decreases BLOCK_SIZE - i,
        {
            boot_buf[i] = half0[i];
            boot_buf[i + BLOCK_SIZE] = half1[i];
            i += 1;
        }
        let boot = match BootBlock::parse(&boot_buf) {
            Ok(b) => b,
            Err(e) => {
                return Err(e);
            },
        };
        // Calculate root block position (middle of disk when not stored)
        let root_block = if boot.root_block != 0 {
            boot.root_block
        } else {
            total_blocks / 2
        };
        // Validate root block is in range
        if root_block >= total_blocks {
            return Err(AffsError::BlockOutOfRange);
        }
        // Read root block
        let mut root_buf = [0u8; BLOCK_SIZE];
        match device.read_block(root_block, &mut root_buf) {
            Ok(()) => (),
            Err(()) => {
                return Err(AffsError::BlockReadError);
            },
        }
        let root = match RootBlock::parse(&root_buf) {
            Ok(b) => b,
            Err(e) => {
                return Err(e);
            },
        };
        Ok(AffsReader { device, boot, root, root_block, total_blocks })
    }

    /// Get the filesystem type (OFS or FFS).
    pub fn fs_type(&self) -> (r: FsType)
        ensures
            r == self.spec_fs_type(),
    {
        self.boot.fs_type()
    }

    /// Get filesystem flags.
    pub fn fs_flags(&self) -> (r: FsFlags)
        ensures
            r.intl == self.spec_is_intl(),
            r.dircache == ((self.spec_boot().dos_type@[3] & DOSFS_DIRCACHE) != 0),
    {
        self.boot.fs_flags()
    }

    /// Check if international mode is enabled.
    pub fn is_intl(&self) -> (r: bool)
        ensures
            r == self.spec_is_intl(),
    {
        self.boot.fs_flags().intl
    }

    /// Get the root block number.
    pub fn root_block(&self) -> (r: u32)
        ensures
            r == self.spec_root_block(),
    {
        self.root_block
    }

    /// Get the total number of blocks.
    pub fn total_blocks(&self) -> (r: u32)
        ensures
            r == self.spec_total_blocks(),
    {
        self.total_blocks
    }

    /// Get the disk name as bytes.
    pub fn disk_name(&self) -> (r: &[u8])
        requires
            self.wf(),
        ensures
            r@ == self.spec_disk_name(),
    {
        self.root.name()
    }

    /// Get the disk name as a string (if valid UTF-8).
    pub fn disk_name_str(&self) -> (r: Option<&str>)
        requires
            self.wf(),
        ensures
            r is Some <==> utf8_decode(self.spec_disk_name()) is Some,
            r matches Some(s) ==> utf8_decode(self.spec_disk_name()) == Some(s@),
    {
        from_utf8(self.disk_name())
    }

    /// Get the volume label (alias for disk_name).
    pub fn label(&self) -> (r: &[u8])
        requires
            self.wf(),
        ensures
            r@ == self.spec_disk_name(),
    {
        self.disk_name()
    }

    /// Get the volume label as string (alias for disk_name_str).
    pub fn label_str(&self) -> (r: Option<&str>)
        requires
            self.wf(),
        ensures
            r is Some <==> utf8_decode(self.spec_disk_name()) is Some,
            r matches Some(s) ==> utf8_decode(self.spec_disk_name()) == Some(s@),
    {
        self.disk_name_str()
    }

    /// Get the volume creation date.
    pub fn creation_date(&self) -> (r: AmigaDate)
        ensures
            r == self.spec_root().creation_date,
    {
        self.root.creation_date
    }

    /// Get the volume last modification date.
    pub fn last_modified(&self) -> (r: AmigaDate)
        ensures
            r == self.spec_root().last_modified,
    {
        self.root.last_modified
    }

    /// Get the volume modification time as a Unix timestamp:
    /// `days * 86400 + mins * 60 + ticks / 50` plus the 1978 epoch offset.
    pub fn mtime(&self) -> (r: i64)
        ensures
            r == self.spec_root().last_modified.days as int * 86400
                + self.spec_root().last_modified.mins as int * 60 + spec_div50_trunc(
                self.spec_root().last_modified.ticks as int,
            ) + 252460800,
    {
        self.root.last_modified.to_unix_timestamp()
    }

    /// Check if the bitmap is valid.
    pub fn bitmap_valid(&self) -> (r: bool)
        ensures
            r == (self.spec_root().bm_flag == BM_VALID),
    {
        self.root.bitmap_valid()
    }

    /// Get the root directory hash table.
    pub fn root_hash_table(&self) -> (r: &[u32; HASH_TABLE_SIZE])
        ensures
            r@ == self.spec_root().hash_table@,
    {
        &self.root.hash_table
    }

    /// Get a reference to the block device.
    pub fn device(&self) -> (r: &'a D)
        ensures
            r == self.spec_device(),
    {
        self.device
    }

    /// Iterate over entries in the root directory.
    pub fn read_root_dir(&self) -> (r: DirIter<'a, D>)
        ensures
            r.wf(),
            r.spec_intl() == self.spec_is_intl(),
            r.spec_hash_table() == self.spec_root().hash_table@,
    {
        DirIter::new(self.device, self.root.hash_table, self.is_intl())
    }

    /// Iterate over entries in a directory given by block number.
    ///
    /// The root block number short-circuits to the already-decoded root
    /// hash table; any other block is read, decoded, and must be a
    /// directory.
    pub fn read_dir(&self, block: u32) -> (r: Result<DirIter<'a, D>, AffsError>)
        ensures
            r matches Ok(it) ==> it.wf() && it.spec_intl() == self.spec_is_intl(),
            // The root block number short-circuits to the already-decoded
            // root hash table, without touching the device.
            block == self.spec_root_block() ==> (r matches Ok(it) && it.spec_hash_table()
                == self.spec_root().hash_table@),
            r matches Err(e) ==> e == AffsError::BlockReadError || e == AffsError::InvalidBlockType
                || e == AffsError::ChecksumMismatch || e == AffsError::NotADirectory,
    {
        if block == self.root_block {
            return Ok(self.read_root_dir());
        }
        let mut buf = [0u8; BLOCK_SIZE];
        match self.device.read_block(block, &mut buf) {
            Ok(()) => (),
            Err(()) => {
                return Err(AffsError::BlockReadError);
            },
        }
        let entry = match EntryBlock::parse(&buf) {
            Ok(e) => e,
            Err(e) => {
                return Err(e);
            },
        };
        if !entry.is_dir() {
            return Err(AffsError::NotADirectory);
        }
        Ok(DirIter::new(self.device, entry.hash_table, self.is_intl()))
    }

    /// Find an entry by name in a directory.
    ///
    /// Any entry returned has a name that compares equal to the query under
    /// the filesystem's name fold.
    pub fn find_entry(&self, dir_block: u32, name: &[u8]) -> (r: Result<DirEntry, AffsError>)
        ensures
            r == Result::<DirEntry, AffsError>::Err(AffsError::NameTooLong) ==> name@.len()
                > MAX_NAME_LEN,
            r matches Ok(d) ==> d.name_len <= MAX_NAME_LEN && spec_names_equal(
                d.spec_name(),
                name@,
                self.spec_is_intl(),
            ),
            // In the root directory an empty bucket settles the lookup
            // without any device access.
            dir_block == self.spec_root_block() && name@.len() <= MAX_NAME_LEN
                && self.spec_root().hash_table@[spec_hash_name(name@, self.spec_is_intl())] == 0
                ==> r == Result::<DirEntry, AffsError>::Err(AffsError::EntryNotFound),
    {
        let dir = match self.read_dir(dir_block) {
            Ok(d) => d,
            Err(e) => {
                return Err(e);
            },
        };
        dir.find(name)
    }

    /// Find an entry by a slash-separated path from the root.
    ///
    /// Empty components are skipped, so leading and trailing slashes are
    /// tolerated; a path with no nonempty component yields `EntryNotFound`.
    pub fn find_path(&self, path: &[u8]) -> (r: Result<DirEntry, AffsError>)
        ensures
            (forall|i: int| 0 <= i < path@.len() ==> path@[i] == 47u8) ==> r == Result::<
                DirEntry,
                AffsError,
            >::Err(AffsError::EntryNotFound),
            r matches Ok(d) ==> d.name_len <= MAX_NAME_LEN,
    {
        let mut current_block = self.root_block;
        let mut found: Option<DirEntry> = None;
        let mut pos: usize = 0;
        while pos < path.len()
            invariant
                pos <= path@.len(),
                found is None ==> forall|i: int| 0 <= i < pos ==> path@[i] == 47u8,
                found matches Some(d) ==> d.name_len <= MAX_NAME_LEN,
                found is Some ==> exists|i: int| 0 <= i < path@.len() && path@[i] != 47u8,
            decreases path@.len() - pos,
        {
            // Scan one path component.
            let start = pos;
            let mut end = pos;
            while end < path.len() && path[end] != 47
                invariant
                    start <= end <= path@.len(),
                    forall|i: int| start <= i < end ==> path@[i] != 47u8,
                decreases path@.len() - end,
            {
                end += 1;
            }
            if end == start {
                // Empty component: skip the slash.
                pos = end + 1;
                continue ;
            }
            proof {
                assert(path@[start as int] != 47u8);
            }
            let component = &path[start..end];
            let entry = match self.find_entry(current_block, component) {
                Ok(e) => e,
                Err(e) => {
                    return Err(e);
                },
            };
            if entry.is_dir() {
                current_block = entry.block;
            }
            found = Some(entry);
            pos = if end < path.len() {
                end + 1
            } else {
                end
            };
        }
        match found {
            Some(e) => Ok(e),
            None => Err(AffsError::EntryNotFound),
        }
    }

    /// Open a file for reading, given its header block number.
    pub fn read_file(&self, block: u32) -> (r: Result<FileReader<'a, D>, AffsError>)
        ensures
            r matches Ok(f) ==> f.wf() && f.spec_remaining() == f.spec_size()
                && f.spec_position() == 0 && f.spec_header_block() == block && f.spec_fs_type()
                == self.spec_fs_type(),
    {
        FileReader::new(self.device, self.fs_type(), block)
    }

    /// Read and decode an entry block.
    pub fn read_entry(&self, block: u32) -> (r: Result<EntryBlock, AffsError>)
        ensures
            r matches Ok(e) ==> e.name_len <= MAX_NAME_LEN && e.comment_len <= MAX_COMMENT_LEN,
            r matches Err(e) ==> e == AffsError::BlockReadError || e == AffsError::InvalidBlockType
                || e == AffsError::ChecksumMismatch,
    {
        let mut buf = [0u8; BLOCK_SIZE];
        match self.device.read_block(block, &mut buf) {
            Ok(()) => (),
            Err(()) => {
                return Err(AffsError::BlockReadError);
            },
        }
        EntryBlock::parse(&buf)
    }

    /// Read a symlink target into `out` as UTF-8.
    ///
    /// The block must decode to a soft-link entry; the stored Latin-1
    /// target is transcoded, a leading `:` becoming `/`. Returns the number
    /// of bytes written.
    pub fn read_symlink(&self, block: u32, out: &mut [u8]) -> (r: Result<usize, AffsError>)
        ensures
            final(out)@.len() == old(out)@.len(),
            r matches Ok(n) ==> n <= final(out)@.len() && forall|i: int|
                n <= i < final(out)@.len() ==> final(out)@[i] == old(out)@[i],
            r matches Err(e) ==> e == AffsError::BlockReadError || e == AffsError::InvalidBlockType
                || e == AffsError::ChecksumMismatch || e == AffsError::NotASymlink,
    {
        let mut buf = [0u8; BLOCK_SIZE];
        match self.device.read_block(block, &mut buf) {
            Ok(()) => (),
            Err(()) => {
                return Err(AffsError::BlockReadError);
            },
        }
        // Verify this is a symlink
        let entry = match EntryBlock::parse(&buf) {
            Ok(e) => e,
            Err(e) => {
                return Err(e);
            },
        };
        match entry.entry_type() {
            Some(EntryType::SoftLink) => (),
            _ => {
                return Err(AffsError::NotASymlink);
            },
        }
        Ok(read_symlink_target(&buf, out))
    }

    /// Read a symlink target from a directory entry.
    pub fn read_symlink_entry(&self, entry: &DirEntry, out: &mut [u8]) -> (r: Result<
        usize,
        AffsError,
    >)
        ensures
            final(out)@.len() == old(out)@.len(),
            entry.entry_type != EntryType::SoftLink ==> r == Result::<usize, AffsError>::Err(
                AffsError::NotASymlink,
            ) && final(out)@ == old(out)@,
            r matches Ok(n) ==> n <= final(out)@.len() && forall|i: int|
                n <= i < final(out)@.len() ==> final(out)@[i] == old(out)@[i],
    {
        if !entry.is_symlink() {
            return Err(AffsError::NotASymlink);
        }
        self.read_symlink(entry.block, out)
    }

    /// Get a synthetic DirEntry for the root directory.
    pub fn root_entry(&self) -> (r: DirEntry)
        requires
            self.wf(),
        ensures
            r.entry_type == EntryType::Root,
            r.block == self.spec_root_block(),
            r.parent == 0,
            r.size == 0,
            r.name_len == self.spec_root().name_len,
            r.spec_name() == self.spec_disk_name(),
            r.comment_len == 0,
            r.date == self.spec_root().last_modified,
    {
        DirEntry::from_root(&self.root, self.root_block)
    }
}

impl DirEntry {
    /// Create a DirEntry representing the root directory.
    pub(crate) fn from_root(root: &RootBlock, block: u32) -> (r: Self)
        requires
            root.name_len <= MAX_NAME_LEN,
        ensures
            r.entry_type == EntryType::Root,
            r.block == block,
            r.parent == 0,
            r.size == 0,
            r.access.0 == 0,
            r.real_entry == 0,
            r.name_len == root.name_len,
            r.spec_name() == root.disk_name@.subrange(0, root.name_len as int),
            r.comment_len == 0,
            r.date == root.last_modified,
    {
        let name: [u8; MAX_NAME_LEN] = copy_prefix(
            &root.disk_name[0..MAX_NAME_LEN],
            root.name_len as usize,
        );
        let r = DirEntry {
            name,
            name_len: root.name_len,
            entry_type: EntryType::Root,
            block,
            parent: 0,
            size: 0,
            access: Access::new(0),
            date: root.last_modified,
            real_entry: 0,
            comment: [0u8; MAX_COMMENT_LEN],
            comment_len: 0,
        };
        proof {
            assert(r.spec_name() =~= root.disk_name@.subrange(0, root.name_len as int));
        }
        r
    }
}

} // verus!
