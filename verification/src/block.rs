//! Block structure parsing.
//!
//! Each parse function takes a fixed-size byte buffer and returns the typed
//! structure or a decode failure. Validation order: type tag first, then
//! secondary type (where applicable), then checksum. All fields are
//! big-endian fixed-width integers at fixed byte offsets.
use vstd::prelude::*;

use vstd::arithmetic::div_mod::{lemma_add_mod_noop, lemma_small_mod};

use crate::checksum::{
    be32_at, be32_signed_at, boot_sum, normal_sum, read_i32_be, read_u32_be, read_u32_be_slice,
    spec_boot_sum, spec_normal_sum,
};
use crate::constants::{
    BLOCK_SIZE, BM_PAGES_ROOT_SIZE, BM_VALID, BOOT_BLOCK_SIZE, DOSFS_DIRCACHE, DOSFS_FFS,
    DOSFS_INTL, HASH_TABLE_SIZE,
    MAX_COMMENT_LEN, MAX_DATABLK, MAX_NAME_LEN, ST_DIR, ST_FILE, ST_LDIR, ST_LFILE, ST_ROOT,
    T_DATA, T_HEADER, T_LIST,
};
use crate::date::AmigaDate;
use crate::error::AffsError;
use crate::types::{spec_entry_type, EntryType, FsFlags, FsType};

verus! {

/// Copy `len` bytes of `buf` starting at `start` into a fresh zero-padded
/// fixed-size array.
fn copy_bytes<const N: usize>(buf: &[u8; BLOCK_SIZE], start: usize, len: usize) -> (r: [u8; N])
    requires
        len <= N,
        start + len <= BLOCK_SIZE,
    ensures
        forall|i: int| 0 <= i < len ==> r@[i] == buf@[start + i],
        forall|i: int| len <= i < N ==> r@[i] == 0,
{
    let mut out = [0u8; N];
    let mut i: usize = 0;
    while i < len
        invariant
            i <= len,
            len <= N,
            start + len <= BLOCK_SIZE,
            forall|j: int| 0 <= j < i ==> out@[j] == buf@[start + j],
            forall|j: int| i <= j < N ==> out@[j] == 0,
        decreases len - i,
    {
        out[i] = buf[start + i];
        i += 1;
    }
    out
}

/// Read `N` consecutive big-endian 32-bit words of `buf` starting at byte
/// offset `start`.
fn read_u32_table<const N: usize>(buf: &[u8; BLOCK_SIZE], start: usize) -> (r: [u32; N])
    requires
        start + 4 * N <= BLOCK_SIZE,
    ensures
        forall|i: int| 0 <= i < N ==> r@[i] == be32_at(buf@, start + 4 * i),
{
    let mut out = [0u32; N];
    let mut i: usize = 0;
    while i < N
        invariant
            i <= N,
            start + 4 * N <= BLOCK_SIZE,
            forall|j: int| 0 <= j < i ==> out@[j] == be32_at(buf@, start + 4 * j),
        decreases N - i,
    {
        out[i] = read_u32_be(buf, start + 4 * i);
        i += 1;
    }
    out
}

/// Whether the first three signature bytes of a boot block read "DOS".
pub open spec fn boot_sig_ok(s: Seq<u8>) -> bool {
    s[0] == 68u8 && s[1] == 79u8 && s[2] == 83u8
}

/// Whether a boot block parses: "DOS" signature, and — when boot code is
/// present (byte 12 nonzero) — a stored checksum that matches the boot sum.
pub open spec fn boot_parse_ok(s: Seq<u8>) -> bool {
    boot_sig_ok(s) && (s[12] != 0 ==> be32_at(s, 4) == spec_boot_sum(s))
}

/// Parsed boot block.
#[derive(Debug, Clone)]
pub struct BootBlock {
    /// DOS type bytes ("DOS\x00" - "DOS\x07").
    pub dos_type: [u8; 4],
    /// Checksum.
    pub checksum: u32,
    /// Root block number.
    pub root_block: u32,
}

impl BootBlock {
    /// Parse boot block from raw data (1024 bytes).
    pub fn parse(buf: &[u8; BOOT_BLOCK_SIZE]) -> (r: Result<Self, AffsError>)
        ensures
            r is Ok <==> boot_parse_ok(buf@),
            !boot_sig_ok(buf@) ==> r == Result::<Self, AffsError>::Err(AffsError::InvalidDosType),
            boot_sig_ok(buf@) && !boot_parse_ok(buf@) ==> r == Result::<Self, AffsError>::Err(
                AffsError::ChecksumMismatch,
            ),
            r matches Ok(b) ==> {
                &&& b.dos_type@[0] == buf@[0]
                &&& b.dos_type@[1] == buf@[1]
                &&& b.dos_type@[2] == buf@[2]
                &&& b.dos_type@[3] == buf@[3]
                &&& b.checksum == be32_at(buf@, 4)
                &&& b.root_block == be32_at(buf@, 8)
            },
    {
        let dos_type = [buf[0], buf[1], buf[2], buf[3]];

        // Check for "DOS" signature
        if !(buf[0] == 68 && buf[1] == 79 && buf[2] == 83) {
            return Err(AffsError::InvalidDosType);
        }
        let checksum = read_u32_be_slice(buf.as_slice(), 4);
        let root_block = read_u32_be_slice(buf.as_slice(), 8);

        // Verify checksum if boot code is present
        if buf[12] != 0 {
            let calculated = boot_sum(buf);
            if checksum != calculated {
                return Err(AffsError::ChecksumMismatch);
            }
        }
        Ok(BootBlock { dos_type, checksum, root_block })
    }

    /// Get filesystem type (OFS or FFS).
    pub fn fs_type(&self) -> (r: FsType)
        ensures
            r == (if (self.dos_type@[3] & DOSFS_FFS) != 0 {
                FsType::Ffs
            } else {
                FsType::Ofs
            }),
    {
        if (self.dos_type[3] & DOSFS_FFS) != 0 {
            FsType::Ffs
        } else {
            FsType::Ofs
        }
    }

    /// Get filesystem flags.
    pub fn fs_flags(&self) -> (r: FsFlags)
        ensures
            r.intl == ((self.dos_type@[3] & DOSFS_INTL) != 0),
            r.dircache == ((self.dos_type@[3] & DOSFS_DIRCACHE) != 0),
    {
        FsFlags::from_dos_type(self.dos_type[3])
    }
}

/// Whether a root block parses: HEADER type tag, ROOT secondary type, and a
/// stored checksum (at offset 20) that matches the normal sum.
pub open spec fn root_parse_ok(s: Seq<u8>) -> bool {
    be32_signed_at(s, 0) == T_HEADER as int && be32_signed_at(s, 508) == ST_ROOT as int
        && be32_at(s, 20) == spec_normal_sum(s, 20)
}

/// Parsed root block.
#[derive(Debug, Clone)]
pub struct RootBlock {
    /// Block type (should be T_HEADER).
    pub block_type: i32,
    /// Hash table size (always 72).
    pub hash_table_size: i32,
    /// Checksum.
    pub checksum: u32,
    /// Hash table entries.
    pub hash_table: [u32; HASH_TABLE_SIZE],
    /// Bitmap valid flag (-1 = valid).
    pub bm_flag: i32,
    /// Bitmap block pointers.
    pub bm_pages: [u32; BM_PAGES_ROOT_SIZE],
    /// Bitmap extension block.
    pub bm_ext: u32,
    /// Creation date.
    pub creation_date: AmigaDate,
    /// Disk name length.
    pub name_len: u8,
    /// Disk name (up to 30 chars).
    pub disk_name: [u8; MAX_NAME_LEN],
    /// Last modification date.
    pub last_modified: AmigaDate,
    /// Directory cache extension (FFS only).
    pub extension: u32,
    /// Secondary type (should be ST_ROOT).
    pub sec_type: i32,
}

impl RootBlock {
    /// Parse root block from raw data.
    pub fn parse(buf: &[u8; BLOCK_SIZE]) -> (r: Result<Self, AffsError>)
        ensures
            r is Ok <==> root_parse_ok(buf@),
            be32_signed_at(buf@, 0) != T_HEADER as int ==> r == Result::<Self, AffsError>::Err(
                AffsError::InvalidBlockType,
            ),
            be32_signed_at(buf@, 0) == T_HEADER as int && be32_signed_at(buf@, 508)
                != ST_ROOT as int ==> r == Result::<Self, AffsError>::Err(AffsError::InvalidSecType),
            be32_signed_at(buf@, 0) == T_HEADER as int && be32_signed_at(buf@, 508)
                == ST_ROOT as int && be32_at(buf@, 20) != spec_normal_sum(buf@, 20) ==> r
                == Result::<Self, AffsError>::Err(AffsError::ChecksumMismatch),
            r matches Ok(b) ==> {
                &&& b.block_type == T_HEADER
                &&& b.sec_type == ST_ROOT
                &&& b.hash_table_size as int == be32_signed_at(buf@, 12)
                &&& b.checksum == be32_at(buf@, 20)
                &&& forall|i: int|
                    0 <= i < HASH_TABLE_SIZE ==> #[trigger] b.hash_table@[i] == be32_at(
                        buf@,
                        24 + 4 * i,
                    )
                &&& b.bm_flag as int == be32_signed_at(buf@, 0x138)
                &&& forall|i: int|
                    0 <= i < BM_PAGES_ROOT_SIZE ==> #[trigger] b.bm_pages@[i] == be32_at(
                        buf@,
                        0x13C + 4 * i,
                    )
                &&& b.bm_ext == be32_at(buf@, 0x1A0)
                &&& b.creation_date.days as int == be32_signed_at(buf@, 0x1A4)
                &&& b.creation_date.mins as int == be32_signed_at(buf@, 0x1A8)
                &&& b.creation_date.ticks as int == be32_signed_at(buf@, 0x1AC)
                &&& b.name_len == (if buf@[0x1B0] > 30 {
                    30u8
                } else {
                    buf@[0x1B0]
                })
                &&& forall|i: int|
                    0 <= i < b.name_len ==> #[trigger] b.disk_name@[i] == buf@[0x1B1 + i]
                &&& forall|i: int| b.name_len <= i < MAX_NAME_LEN ==> #[trigger] b.disk_name@[i] == 0
                &&& b.last_modified.days as int == be32_signed_at(buf@, 0x1D8)
                &&& b.last_modified.mins as int == be32_signed_at(buf@, 0x1DC)
                &&& b.last_modified.ticks as int == be32_signed_at(buf@, 0x1E0)
                &&& b.extension == be32_at(buf@, 0x1F8)
            },
    {
        let block_type = read_i32_be(buf, 0);
        if block_type != T_HEADER {
            return Err(AffsError::InvalidBlockType);
        }
        let sec_type = read_i32_be(buf, 508);
        if sec_type != ST_ROOT {
            return Err(AffsError::InvalidSecType);
        }
        let checksum = read_u32_be(buf, 20);
        let calculated = normal_sum(buf, 20);
        if checksum != calculated {
            return Err(AffsError::ChecksumMismatch);
        }
        let hash_table_size = read_i32_be(buf, 12);
        let hash_table: [u32; HASH_TABLE_SIZE] = read_u32_table(buf, 24);
        let bm_flag = read_i32_be(buf, 0x138);
        let bm_pages: [u32; BM_PAGES_ROOT_SIZE] = read_u32_table(buf, 0x13C);
        let bm_ext = read_u32_be(buf, 0x1A0);
        let creation_date = AmigaDate::new(
            read_i32_be(buf, 0x1A4),
            read_i32_be(buf, 0x1A8),
            read_i32_be(buf, 0x1AC),
        );
        let nl = buf[0x1B0];
        let name_len: u8 = if nl > 30 {
            30
        } else {
            nl
        };
        let disk_name: [u8; MAX_NAME_LEN] = copy_bytes(buf, 0x1B1, name_len as usize);
        let last_modified = AmigaDate::new(
            read_i32_be(buf, 0x1D8),
            read_i32_be(buf, 0x1DC),
            read_i32_be(buf, 0x1E0),
        );
        let extension = read_u32_be(buf, 0x1F8);
        Ok(
            RootBlock {
                block_type,
                hash_table_size,
                checksum,
                hash_table,
                bm_flag,
                bm_pages,
                bm_ext,
                creation_date,
                name_len,
                disk_name,
                last_modified,
                extension,
                sec_type,
            },
        )
    }

    /// Get disk name as a byte slice.
    pub fn name(&self) -> (r: &[u8])
        requires
            self.name_len <= MAX_NAME_LEN,
        ensures
            r@ == self.disk_name@.subrange(0, self.name_len as int),
    {
        &self.disk_name[0..self.name_len as usize]
    }

    /// Check if the bitmap is valid.
    pub fn bitmap_valid(&self) -> (r: bool)
        ensures
            r == (self.bm_flag == BM_VALID),
    {
        self.bm_flag == BM_VALID
    }
}

/// Whether an entry block parses: HEADER type tag and a stored checksum (at
/// offset 20) that matches the normal sum.
pub open spec fn entry_parse_ok(s: Seq<u8>) -> bool {
    be32_signed_at(s, 0) == T_HEADER as int && be32_at(s, 20) == spec_normal_sum(s, 20)
}

/// Parsed entry block (file header, directory, or link).
#[derive(Debug, Clone)]
pub struct EntryBlock {
    /// Block type (should be T_HEADER).
    pub block_type: i32,
    /// This block's sector number.
    pub header_key: u32,
    /// High sequence (number of data blocks in this header for files).
    pub high_seq: i32,
    /// First data block (files only).
    pub first_data: u32,
    /// Checksum.
    pub checksum: u32,
    /// Hash table (directories) or data block pointers (files).
    pub hash_table: [u32; HASH_TABLE_SIZE],
    /// Access flags.
    pub access: u32,
    /// File size in bytes (files only).
    pub byte_size: u32,
    /// Comment length.
    pub comment_len: u8,
    /// Comment (up to 79 chars).
    pub comment: [u8; MAX_COMMENT_LEN],
    /// Last modification date.
    pub date: AmigaDate,
    /// Name length.
    pub name_len: u8,
    /// Entry name (up to 30 chars).
    pub name: [u8; MAX_NAME_LEN],
    /// Real entry (for hard links).
    pub real_entry: u32,
    /// Next link in chain.
    pub next_link: u32,
    /// Next entry with same hash.
    pub next_same_hash: u32,
    /// Parent directory block.
    pub parent: u32,
    /// Extension block (file ext or dir cache).
    pub extension: u32,
    /// Secondary type.
    pub sec_type: i32,
}

impl EntryBlock {
    /// Parse entry block from raw data.
    pub fn parse(buf: &[u8; BLOCK_SIZE]) -> (r: Result<Self, AffsError>)
        ensures
            r is Ok <==> entry_parse_ok(buf@),
            be32_signed_at(buf@, 0) != T_HEADER as int ==> r == Result::<Self, AffsError>::Err(
                AffsError::InvalidBlockType,
            ),
            be32_signed_at(buf@, 0) == T_HEADER as int && be32_at(buf@, 20) != spec_normal_sum(
                buf@,
                20,
            ) ==> r == Result::<Self, AffsError>::Err(AffsError::ChecksumMismatch),
            r matches Ok(b) ==> {
                &&& b.block_type == T_HEADER
                &&& b.header_key == be32_at(buf@, 4)
                &&& b.high_seq as int == be32_signed_at(buf@, 8)
                &&& b.first_data == be32_at(buf@, 16)
                &&& b.checksum == be32_at(buf@, 20)
                &&& forall|i: int|
                    0 <= i < HASH_TABLE_SIZE ==> #[trigger] b.hash_table@[i] == be32_at(
                        buf@,
                        24 + 4 * i,
                    )
                &&& b.access == be32_at(buf@, 0x140)
                &&& b.byte_size == be32_at(buf@, 0x144)
                &&& b.comment_len == (if buf@[0x148] > 79 {
                    79u8
                } else {
                    buf@[0x148]
                })
                &&& forall|i: int|
                    0 <= i < b.comment_len ==> #[trigger] b.comment@[i] == buf@[0x149 + i]
                &&& forall|i: int|
                    b.comment_len <= i < MAX_COMMENT_LEN ==> #[trigger] b.comment@[i] == 0
                &&& b.date.days as int == be32_signed_at(buf@, 0x1A4)
                &&& b.date.mins as int == be32_signed_at(buf@, 0x1A8)
                &&& b.date.ticks as int == be32_signed_at(buf@, 0x1AC)
                &&& b.name_len == (if buf@[0x1B0] > 30 {
                    30u8
                } else {
                    buf@[0x1B0]
                })
                &&& forall|i: int| 0 <= i < b.name_len ==> #[trigger] b.name@[i] == buf@[0x1B1 + i]
                &&& forall|i: int| b.name_len <= i < MAX_NAME_LEN ==> #[trigger] b.name@[i] == 0
                &&& b.real_entry == be32_at(buf@, 0x1D4)
                &&& b.next_link == be32_at(buf@, 0x1D8)
                &&& b.next_same_hash == be32_at(buf@, 0x1F0)
                &&& b.parent == be32_at(buf@, 0x1F4)
                &&& b.extension == be32_at(buf@, 0x1F8)
                &&& b.sec_type as int == be32_signed_at(buf@, 0x1FC)
            },
    {
        let block_type = read_i32_be(buf, 0);
        if block_type != T_HEADER {
            return Err(AffsError::InvalidBlockType);
        }
        let checksum = read_u32_be(buf, 20);
        let calculated = normal_sum(buf, 20);
        if checksum != calculated {
            return Err(AffsError::ChecksumMismatch);
        }
        let header_key = read_u32_be(buf, 4);
        let high_seq = read_i32_be(buf, 8);
        let first_data = read_u32_be(buf, 16);
        let hash_table: [u32; HASH_TABLE_SIZE] = read_u32_table(buf, 24);
        let access = read_u32_be(buf, 0x140);
        let byte_size = read_u32_be(buf, 0x144);
        let cl = buf[0x148];
        let comment_len: u8 = if cl > 79 {
            79
        } else {
            cl
        };
        let comment: [u8; MAX_COMMENT_LEN] = copy_bytes(buf, 0x149, comment_len as usize);
        let date = AmigaDate::new(
            read_i32_be(buf, 0x1A4),
            read_i32_be(buf, 0x1A8),
            read_i32_be(buf, 0x1AC),
        );
        let nl = buf[0x1B0];
        let name_len: u8 = if nl > 30 {
            30
        } else {
            nl
        };
        let name: [u8; MAX_NAME_LEN] = copy_bytes(buf, 0x1B1, name_len as usize);
        let real_entry = read_u32_be(buf, 0x1D4);
        let next_link = read_u32_be(buf, 0x1D8);
        let next_same_hash = read_u32_be(buf, 0x1F0);
        let parent = read_u32_be(buf, 0x1F4);
        let extension = read_u32_be(buf, 0x1F8);
        let sec_type = read_i32_be(buf, 0x1FC);
        Ok(
            EntryBlock {
                block_type,
                header_key,
                high_seq,
                first_data,
                checksum,
                hash_table,
                access,
                byte_size,
                comment_len,
                comment,
                date,
                name_len,
                name,
                real_entry,
                next_link,
                next_same_hash,
                parent,
                extension,
                sec_type,
            },
        )
    }

    /// Get entry name as a byte slice.
    pub fn name(&self) -> (r: &[u8])
        requires
            self.name_len <= MAX_NAME_LEN,
        ensures
            r@ == self.name@.subrange(0, self.name_len as int),
    {
        &self.name[0..self.name_len as usize]
    }

    /// Get comment as a byte slice.
    pub fn comment(&self) -> (r: &[u8])
        requires
            self.comment_len <= MAX_COMMENT_LEN,
        ensures
            r@ == self.comment@.subrange(0, self.comment_len as int),
    {
        &self.comment[0..self.comment_len as usize]
    }

    /// Get entry type.
    pub fn entry_type(&self) -> (r: Option<EntryType>)
        ensures
            r == spec_entry_type(self.sec_type as int),
    {
        EntryType::from_sec_type(self.sec_type)
    }

    /// Check if this is a directory.
    pub fn is_dir(&self) -> (r: bool)
        ensures
            r == (self.sec_type == ST_DIR || self.sec_type == ST_LDIR),
    {
        self.sec_type == ST_DIR || self.sec_type == ST_LDIR
    }

    /// Check if this is a file.
    pub fn is_file(&self) -> (r: bool)
        ensures
            r == (self.sec_type == ST_FILE || self.sec_type == ST_LFILE),
    {
        self.sec_type == ST_FILE || self.sec_type == ST_LFILE
    }

    /// Get data block pointer at index (for files).
    ///
    /// Index 0 is the first data block; the pointers are stored in reverse
    /// order in the table.
    pub fn data_block(&self, index: usize) -> (r: u32)
        ensures
            index < MAX_DATABLK ==> r == self.hash_table@[MAX_DATABLK - 1 - index],
            index >= MAX_DATABLK ==> r == 0,
    {
        if index < MAX_DATABLK {
            self.hash_table[MAX_DATABLK - 1 - index]
        } else {
            0
        }
    }
}

/// Whether a file extension block parses: LIST type tag and a stored
/// checksum (at offset 20) that matches the normal sum.
pub open spec fn file_ext_parse_ok(s: Seq<u8>) -> bool {
    be32_signed_at(s, 0) == T_LIST as int && be32_at(s, 20) == spec_normal_sum(s, 20)
}

/// Parsed file extension block.
#[derive(Debug, Clone)]
pub struct FileExtBlock {
    /// Block type (should be T_LIST).
    pub block_type: i32,
    /// This block's sector number.
    pub header_key: u32,
    /// High sequence (number of data blocks in this ext block).
    pub high_seq: i32,
    /// Checksum.
    pub checksum: u32,
    /// Data block pointers.
    pub data_blocks: [u32; MAX_DATABLK],
    /// Parent (file header block).
    pub parent: u32,
    /// Next extension block.
    pub extension: u32,
    /// Secondary type (should be ST_FILE).
    pub sec_type: i32,
}

impl FileExtBlock {
    /// Parse file extension block from raw data.
    pub fn parse(buf: &[u8; BLOCK_SIZE]) -> (r: Result<Self, AffsError>)
        ensures
            r is Ok <==> file_ext_parse_ok(buf@),
            be32_signed_at(buf@, 0) != T_LIST as int ==> r == Result::<Self, AffsError>::Err(
                AffsError::InvalidBlockType,
            ),
            be32_signed_at(buf@, 0) == T_LIST as int && be32_at(buf@, 20) != spec_normal_sum(
                buf@,
                20,
            ) ==> r == Result::<Self, AffsError>::Err(AffsError::ChecksumMismatch),
            r matches Ok(b) ==> {
                &&& b.block_type == T_LIST
                &&& b.header_key == be32_at(buf@, 4)
                &&& b.high_seq as int == be32_signed_at(buf@, 8)
                &&& b.checksum == be32_at(buf@, 20)
                &&& forall|i: int|
                    0 <= i < MAX_DATABLK ==> #[trigger] b.data_blocks@[i] == be32_at(
                        buf@,
                        24 + 4 * i,
                    )
                &&& b.parent == be32_at(buf@, 0x1F4)
                &&& b.extension == be32_at(buf@, 0x1F8)
                &&& b.sec_type as int == be32_signed_at(buf@, 0x1FC)
            },
    {
        let block_type = read_i32_be(buf, 0);
        if block_type != T_LIST {
            return Err(AffsError::InvalidBlockType);
        }
        let checksum = read_u32_be(buf, 20);
        let calculated = normal_sum(buf, 20);
        if checksum != calculated {
            return Err(AffsError::ChecksumMismatch);
        }
        let header_key = read_u32_be(buf, 4);
        let high_seq = read_i32_be(buf, 8);
        let data_blocks: [u32; MAX_DATABLK] = read_u32_table(buf, 24);
        let parent = read_u32_be(buf, 0x1F4);
        let extension = read_u32_be(buf, 0x1F8);
        let sec_type = read_i32_be(buf, 0x1FC);
        Ok(
            FileExtBlock {
                block_type,
                header_key,
                high_seq,
                checksum,
                data_blocks,
                parent,
                extension,
                sec_type,
            },
        )
    }

    /// Get data block pointer at index (stored in reverse order).
    pub fn data_block(&self, index: usize) -> (r: u32)
        ensures
            index < MAX_DATABLK ==> r == self.data_blocks@[MAX_DATABLK - 1 - index],
            index >= MAX_DATABLK ==> r == 0,
    {
        if index < MAX_DATABLK {
            self.data_blocks[MAX_DATABLK - 1 - index]
        } else {
            0
        }
    }
}

/// Whether an OFS data block parses: DATA type tag and a stored checksum
/// (at offset 20) that matches the normal sum.
pub open spec fn ofs_data_parse_ok(s: Seq<u8>) -> bool {
    be32_signed_at(s, 0) == T_DATA as int && be32_at(s, 20) == spec_normal_sum(s, 20)
}

/// Parsed OFS data block header.
#[derive(Debug, Clone, Copy)]
pub struct OfsDataBlock {
    /// Block type (should be T_DATA).
    pub block_type: i32,
    /// File header block pointer.
    pub header_key: u32,
    /// Sequence number (1-based).
    pub seq_num: u32,
    /// Data size in this block.
    pub data_size: u32,
    /// Next data block.
    pub next_data: u32,
    /// Checksum.
    pub checksum: u32,
}

impl OfsDataBlock {
    /// Parse OFS data block header from raw data.
    pub fn parse(buf: &[u8; BLOCK_SIZE]) -> (r: Result<Self, AffsError>)
        ensures
            r is Ok <==> ofs_data_parse_ok(buf@),
            be32_signed_at(buf@, 0) != T_DATA as int ==> r == Result::<Self, AffsError>::Err(
                AffsError::InvalidBlockType,
            ),
            be32_signed_at(buf@, 0) == T_DATA as int && be32_at(buf@, 20) != spec_normal_sum(
                buf@,
                20,
            ) ==> r == Result::<Self, AffsError>::Err(AffsError::ChecksumMismatch),
            r matches Ok(b) ==> {
                &&& b.block_type == T_DATA
                &&& b.header_key == be32_at(buf@, 4)
                &&& b.seq_num == be32_at(buf@, 8)
                &&& b.data_size == be32_at(buf@, 12)
                &&& b.next_data == be32_at(buf@, 16)
                &&& b.checksum == be32_at(buf@, 20)
            },
    {
        let block_type = read_i32_be(buf, 0);
        if block_type != T_DATA {
            return Err(AffsError::InvalidBlockType);
        }
        let checksum = read_u32_be(buf, 20);
        let calculated = normal_sum(buf, 20);
        if checksum != calculated {
            return Err(AffsError::ChecksumMismatch);
        }
        Ok(
            OfsDataBlock {
                block_type,
                header_key: read_u32_be(buf, 4),
                seq_num: read_u32_be(buf, 8),
                data_size: read_u32_be(buf, 12),
                next_data: read_u32_be(buf, 16),
                checksum,
            },
        )
    }

    /// Get the data portion of the block (everything after the 24-byte
    /// header).
    pub fn data(buf: &[u8; BLOCK_SIZE]) -> (r: &[u8])
        ensures
            r@ == buf@.subrange(24, BLOCK_SIZE as int),
    {
        &buf[24..BLOCK_SIZE]
    }
}

/// ASCII uppercase fold: `a`-`z` map to `A`-`Z`, everything else is
/// unchanged.
pub open spec fn spec_ascii_upper(c: u8) -> u8 {
    if 97 <= c && c <= 122 {
        (c - 32) as u8
    } else {
        c
    }
}

/// International uppercase fold: in addition to ASCII, Latin-1 bytes
/// 224-254 except 247 (the multiplication sign) map to their value minus 32.
pub open spec fn spec_intl_upper(c: u8) -> u8 {
    if (97 <= c && c <= 122) || (224 <= c && c <= 254 && c != 247) {
        (c - 32) as u8
    } else {
        c
    }
}

/// The uppercase fold used by name hashing and comparison, chosen by the
/// international-mode flag.
pub open spec fn spec_upper(c: u8, intl: bool) -> u8 {
    if intl {
        spec_intl_upper(c)
    } else {
        spec_ascii_upper(c)
    }
}

/// One step of the name-hash recurrence:
/// `hash * 13 + folded byte`, wrapped to 32 bits and masked to 11 bits.
pub open spec fn spec_hash_step(h: u32, c: u8, intl: bool) -> u32 {
    (((h as int * 13 + spec_upper(c, intl) as int) % 0x100000000) as u32) & 0x7FF
}

/// The hash accumulator after folding the first `n` bytes of `name`,
/// starting from the name's length.
pub open spec fn spec_hash_acc(name: Seq<u8>, intl: bool, n: int) -> u32
    decreases n,
{
    if n <= 0 {
        (name.len() as int % 0x100000000) as u32
    } else {
        spec_hash_step(spec_hash_acc(name, intl, n - 1), name[n - 1], intl)
    }
}

/// The hash bucket of `name`: the accumulator over all bytes, modulo the
/// hash-table size.
pub open spec fn spec_hash_name(name: Seq<u8>, intl: bool) -> int {
    spec_hash_acc(name, intl, name.len() as int) as int % (HASH_TABLE_SIZE as int)
}

/// Convert ASCII character to uppercase.
fn ascii_to_upper(c: u8) -> (r: u8)
    ensures
        r == spec_ascii_upper(c),
{
    if c >= 97 && c <= 122 {
        c - 32
    } else {
        c
    }
}

/// Convert character to uppercase with international support.
///
/// Handles Latin-1 characters 224-254 excluding the multiplication
/// sign (247): lowercase accented letters map to their uppercase
/// equivalents by subtracting 32.
pub fn intl_to_upper(c: u8) -> (r: u8)
    ensures
        r == spec_intl_upper(c),
{
    if (c >= 97 && c <= 122) || (c >= 224 && c <= 254 && c != 247) {
        c - 32
    } else {
        c
    }
}

/// Compute the hash bucket for a name.
///
/// This implements the Amiga filename hashing algorithm: start from the
/// name's length, then for each byte fold it to uppercase and take
/// `hash * 13 + byte`, wrapped and masked to 11 bits; the bucket is the
/// result modulo the hash-table size, so it is always below 72, and the
/// empty name hashes to bucket 0.
pub fn hash_name(name: &[u8], intl: bool) -> (r: usize)
    ensures
        r == spec_hash_name(name@, intl),
        r < HASH_TABLE_SIZE,
        name@.len() == 0 ==> r == 0,
{
    let mut hash: u32 = ((name.len() as u64) % 0x100000000) as u32;
    let mut i: usize = 0;
    while i < name.len()
        invariant
            i <= name@.len(),
            hash == spec_hash_acc(name@, intl, i as int),
        decreases name@.len() - i,
    {
        let c = name[i];
        let upper = if intl {
            intl_to_upper(c)
        } else {
            ascii_to_upper(c)
        };
        let stepped = hash.wrapping_mul(13).wrapping_add(upper as u32) & 0x7FF;
        proof {
            let m = 0x100000000int;
            lemma_small_mod(upper as nat, m as nat);
            lemma_add_mod_noop(hash as int * 13, upper as int, m);
        }
        hash = stepped;
        i += 1;
    }
    (hash % 72) as usize
}

/// Two names match exactly when they have the same length and every byte
/// pair is equal after the configured uppercase fold.
pub open spec fn spec_names_equal(a: Seq<u8>, b: Seq<u8>, intl: bool) -> bool {
    a.len() == b.len() && forall|i: int|
        0 <= i < a.len() ==> spec_upper(a[i], intl) == spec_upper(b[i], intl)
}

/// Compare two names for equality (case-insensitive).
///
/// Differing lengths yield false before any byte is compared.
pub fn names_equal(a: &[u8], b: &[u8], intl: bool) -> (r: bool)
    ensures
        r == spec_names_equal(a@, b@, intl),
{
    if a.len() != b.len() {
        return false;
    }
    if a.len() == 0 {
        return true;
    }
    let mut i: usize = 0;
    while i < a.len()
        invariant
            a@.len() == b@.len(),
            i <= a@.len(),
            forall|j: int| 0 <= j < i ==> spec_upper(a@[j], intl) == spec_upper(b@[j], intl),
        decreases a@.len() - i,
    {
        let ua = if intl {
            intl_to_upper(a[i])
        } else {
            ascii_to_upper(a[i])
        };
        let ub = if intl {
            intl_to_upper(b[i])
        } else {
            ascii_to_upper(b[i])
        };
        if ua != ub {
            assert(spec_upper(a@[i as int], intl) != spec_upper(b@[i as int], intl));
            return false;
        }
        i += 1;
    }
    true
}

/// Name comparison is an equivalence up to the case fold: it is reflexive,
/// symmetric and transitive, and names of different lengths never compare
/// equal.
pub proof fn lemma_names_equal_equivalence(a: Seq<u8>, b: Seq<u8>, c: Seq<u8>, intl: bool)
    ensures
        spec_names_equal(a, a, intl),
        spec_names_equal(a, b, intl) == spec_names_equal(b, a, intl),
        spec_names_equal(a, b, intl) && spec_names_equal(b, c, intl) ==> spec_names_equal(
            a,
            c,
            intl,
        ),
        a.len() != b.len() ==> !spec_names_equal(a, b, intl),
{
    if spec_names_equal(a, b, intl) {
        assert forall|i: int|
            0 <= i < b.len() implies spec_upper(b[i], intl) == spec_upper(a[i], intl) by {
            assert(spec_upper(a[i], intl) == spec_upper(b[i], intl));
        }
    }
    if spec_names_equal(b, a, intl) {
        assert forall|i: int|
            0 <= i < a.len() implies spec_upper(a[i], intl) == spec_upper(b[i], intl) by {
            assert(spec_upper(b[i], intl) == spec_upper(a[i], intl));
        }
    }
    if spec_names_equal(a, b, intl) && spec_names_equal(b, c, intl) {
        assert forall|i: int|
            0 <= i < a.len() implies spec_upper(a[i], intl) == spec_upper(c[i], intl) by {
            assert(spec_upper(a[i], intl) == spec_upper(b[i], intl));
            assert(spec_upper(b[i], intl) == spec_upper(c[i], intl));
        }
    }
}

/// Facts about the uppercase folds: the ASCII fold maps `a`-`z` onto
/// `A`-`Z` and fixes everything else; under international mode byte 224
/// folds to 192 while 247 stays put; and both folds are idempotent.
pub proof fn lemma_case_fold_facts(c: u8)
    ensures
        97 <= c <= 122 ==> spec_ascii_upper(c) == c - 32 && 65 <= spec_ascii_upper(c) <= 90,
        !(97 <= c <= 122) ==> spec_ascii_upper(c) == c,
        spec_intl_upper(224) == 192,
        spec_intl_upper(247) == 247,
        spec_ascii_upper(spec_ascii_upper(c)) == spec_ascii_upper(c),
        spec_intl_upper(spec_intl_upper(c)) == spec_intl_upper(c),
{
}

} // verus!
