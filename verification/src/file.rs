//! File reading.
//!
//! A `FileReader` reads file data sequentially, crossing data-block
//! boundaries and (for FFS) extension-block boundaries transparently. OFS
//! files chain data blocks through each block's `next_data` pointer; FFS
//! files take block pointers from the reverse-ordered table in the header,
//! refilled from extension blocks.
use vstd::prelude::*;

use crate::block::{
    entry_parse_ok, file_ext_parse_ok, ofs_data_parse_ok, EntryBlock, FileExtBlock, OfsDataBlock,
};
use crate::checksum::{be32_at, be32_signed_at};
use crate::constants::{BLOCK_SIZE, FFS_DATA_SIZE, MAX_DATABLK, OFS_DATA_SIZE, ST_FILE, ST_LFILE};
use crate::error::AffsError;
use crate::types::{BlockDevice, FsType};

verus! {

/// The data payload size per block for a filesystem type.
pub open spec fn spec_data_block_size(t: FsType) -> int {
    if t == FsType::Ofs {
        OFS_DATA_SIZE as int
    } else {
        FFS_DATA_SIZE as int
    }
}

/// Copy `count` bytes of `src` starting at `src_start` into `out` starting
/// at `out_start`; the rest of `out` is untouched.
fn copy_to_out(
    out: &mut [u8],
    out_start: usize,
    src: &[u8; BLOCK_SIZE],
    src_start: usize,
    count: usize,
)
    requires
        out_start + count <= old(out)@.len(),
        src_start + count <= BLOCK_SIZE,
    ensures
        final(out)@.len() == old(out)@.len(),
        forall|i: int|
            out_start <= i < out_start + count ==> #[trigger] final(out)@[i] == src@[src_start + (
            i - out_start)],
        forall|i: int| 0 <= i < out_start ==> #[trigger] final(out)@[i] == old(out)@[i],
        forall|i: int|
            out_start + count <= i < old(out)@.len() ==> #[trigger] final(out)@[i] == old(out)@[i],
{
    let out_len: usize = out.len();
    let mut i: usize = 0;
    while i < count
        invariant
            i <= count,
            out@.len() == out_len,
            out_start + count <= out@.len(),
            out@.len() == old(out)@.len(),
            src_start + count <= BLOCK_SIZE,
            forall|j: int|
                out_start <= j < out_start + i ==> #[trigger] out@[j] == src@[src_start + (j
                    - out_start)],
            forall|j: int| 0 <= j < out_start ==> #[trigger] out@[j] == old(out)@[j],
            forall|j: int|
                out_start + i <= j < old(out)@.len() ==> #[trigger] out@[j] == old(out)@[j],
        decreases count - i,
    {
        out[out_start + i] = src[src_start + i];
        i += 1;
    }
}

/// Reinterpret a stored signed count as the unsigned value of its raw
/// 32-bit word (the format stores the count as a big-endian word; the
/// decoded block carries it signed).
fn count_of_high_seq(high_seq: i32) -> (r: u32)
    ensures
        r as int == (if high_seq >= 0 {
            high_seq as int
        } else {
            high_seq + 0x100000000
        }),
{
    if high_seq >= 0 {
        high_seq as u32
    } else {
        ((high_seq as i64) + 0x100000000) as u32
    }
}

/// Streaming file reader.
///
/// Reads file data sequentially, supporting both OFS and FFS filesystems.
pub struct FileReader<'a, D: BlockDevice> {
    device: &'a D,
    fs_type: FsType,
    /// Block number of file header (for reset/seek).
    header_block: u32,
    /// Total file size in bytes.
    file_size: u32,
    /// Bytes remaining to read.
    remaining: u32,
    /// Current block index within the file (0-based).
    block_index: u32,
    /// Initial number of data blocks in header (for reset).
    initial_blocks_in_header: u32,
    /// Total number of data blocks in header/ext block.
    blocks_in_current: u32,
    /// Index within current header/extension block.
    index_in_current: u32,
    /// Initial data block pointers from header (for reset).
    initial_data_blocks: [u32; MAX_DATABLK],
    /// Current data block pointers (from header or extension).
    data_blocks: [u32; MAX_DATABLK],
    /// Initial extension block (for reset).
    initial_extension: u32,
    /// Next extension block.
    next_extension: u32,
    /// Initial first data block for OFS (for reset).
    initial_first_data: u32,
    /// Current data block (for OFS linked list).
    current_data_block: u32,
    /// Offset within current data block.
    offset_in_block: usize,
    /// Block buffer.
    buf: [u8; BLOCK_SIZE],
}

impl<'a, D: BlockDevice> FileReader<'a, D> {
    /// The reader's cursor state is consistent: no more bytes remain than
    /// the file holds, and the in-block offset stays within one block.
    pub closed spec fn wf(&self) -> bool {
        self.remaining <= self.file_size && self.offset_in_block <= BLOCK_SIZE
    }

    /// The total file size in bytes.
    pub closed spec fn spec_size(&self) -> u32 {
        self.file_size
    }

    /// The bytes not yet read.
    pub closed spec fn spec_remaining(&self) -> u32 {
        self.remaining
    }

    /// The current read position: size minus what remains.
    pub open spec fn spec_position(&self) -> int {
        self.spec_size() - self.spec_remaining()
    }

    /// The block number the reader was opened on.
    pub closed spec fn spec_header_block(&self) -> u32 {
        self.header_block
    }

    /// The filesystem type the reader decodes.
    pub closed spec fn spec_fs_type(&self) -> FsType {
        self.fs_type
    }

    /// The bytes of the currently loaded block buffer.
    pub closed spec fn spec_buf(&self) -> Seq<u8> {
        self.buf@
    }

    /// How many data blocks have been loaded so far.
    pub closed spec fn spec_block_index(&self) -> u32 {
        self.block_index
    }

    /// The current OFS data block (the head of the linked list).
    pub closed spec fn spec_current_data_block(&self) -> u32 {
        self.current_data_block
    }

    /// The current (reverse-ordered) data-block pointer table.
    pub closed spec fn spec_data_blocks(&self) -> Seq<u32> {
        self.data_blocks@
    }

    /// The cursor within the current pointer table.
    pub closed spec fn spec_index_in_current(&self) -> u32 {
        self.index_in_current
    }

    /// How many entries of the current pointer table are populated.
    pub closed spec fn spec_blocks_in_current(&self) -> u32 {
        self.blocks_in_current
    }

    /// The next extension block to load, zero when none.
    pub closed spec fn spec_next_extension(&self) -> u32 {
        self.next_extension
    }

    /// The data-block count captured at construction, for reset.
    pub closed spec fn spec_initial_blocks_in_header(&self) -> u32 {
        self.initial_blocks_in_header
    }

    /// The pointer table captured at construction, for reset.
    pub closed spec fn spec_initial_data_blocks(&self) -> Seq<u32> {
        self.initial_data_blocks@
    }

    /// The extension pointer captured at construction, for reset.
    pub closed spec fn spec_initial_extension(&self) -> u32 {
        self.initial_extension
    }

    /// The OFS first-data pointer captured at construction, for reset.
    pub closed spec fn spec_initial_first_data(&self) -> u32 {
        self.initial_first_data
    }

    /// The reader state that construction derives from a decoded file
    /// header: size and remaining from the byte-size field, the pointer
    /// table, extension and first-data pointers copied, every cursor at
    /// zero, and the same traversal values captured for reset.
    pub open spec fn spec_initialized_from(&self, entry: EntryBlock) -> bool {
        &&& self.spec_size() == entry.byte_size
        &&& self.spec_remaining() == entry.byte_size
        &&& self.spec_data_blocks() == entry.hash_table@
        &&& self.spec_next_extension() == entry.extension
        &&& self.spec_current_data_block() == entry.first_data
        &&& self.spec_blocks_in_current() as int == (if entry.high_seq >= 0 {
            entry.high_seq as int
        } else {
            entry.high_seq + 0x100000000
        })
        &&& self.spec_index_in_current() == 0
        &&& self.spec_block_index() == 0
        &&& self.spec_offset_in_block() == 0
        &&& self.spec_initial_data_blocks() == entry.hash_table@
        &&& self.spec_initial_extension() == entry.extension
        &&& self.spec_initial_first_data() == entry.first_data
        &&& self.spec_initial_blocks_in_header() == self.spec_blocks_in_current()
    }

    /// Build the reader state from a parsed file header.
    fn init(
        device: &'a D,
        fs_type: FsType,
        header_block: u32,
        entry: &EntryBlock,
        buf: [u8; BLOCK_SIZE],
    ) -> (r: Self)
        ensures
            r.wf(),
            r.spec_header_block() == header_block,
            r.spec_fs_type() == fs_type,
            r.spec_buf() == buf@,
            r.spec_initialized_from(*entry),
    {
        let blocks_in_current: u32 = count_of_high_seq(entry.high_seq);
        let data_blocks = entry.hash_table;
        FileReader {
            device,
            fs_type,
            header_block,
            file_size: entry.byte_size,
            remaining: entry.byte_size,
            block_index: 0,
            initial_blocks_in_header: blocks_in_current,
            blocks_in_current,
            index_in_current: 0,
            initial_data_blocks: data_blocks,
            data_blocks,
            initial_extension: entry.extension,
            next_extension: entry.extension,
            initial_first_data: entry.first_data,
            current_data_block: entry.first_data,
            offset_in_block: 0,
            buf,
        }
    }

    /// Create a new file reader from a file header block number.
    ///
    /// Reads and decodes the header block; fails with `NotAFile` when the
    /// entry's secondary type is not a file type.
    pub fn new(device: &'a D, fs_type: FsType, header_block: u32) -> (r: Result<Self, AffsError>)
        ensures
            r matches Ok(f) ==> f.wf() && f.spec_remaining() == f.spec_size()
                && f.spec_position() == 0 && f.spec_header_block() == header_block
                && f.spec_fs_type() == fs_type,
            // On success the reader is initialized from the header bytes,
            // which it keeps in its block buffer: a validated file entry
            // whose fields give the size, the reverse-ordered pointer
            // table, the extension and first-data pointers; all cursors
            // start at zero, and the same values are captured for reset.
            r matches Ok(f) ==> {
                &&& entry_parse_ok(f.spec_buf())
                &&& be32_signed_at(f.spec_buf(), 0x1FC) == ST_FILE as int || be32_signed_at(
                    f.spec_buf(),
                    0x1FC,
                ) == ST_LFILE as int
                &&& f.spec_size() == be32_at(f.spec_buf(), 0x144)
                &&& forall|i: int|
                    0 <= i < MAX_DATABLK ==> #[trigger] f.spec_data_blocks()[i] == be32_at(
                        f.spec_buf(),
                        24 + 4 * i,
                    )
                &&& f.spec_next_extension() == be32_at(f.spec_buf(), 0x1F8)
                &&& f.spec_current_data_block() == be32_at(f.spec_buf(), 16)
                &&& f.spec_blocks_in_current() == be32_at(f.spec_buf(), 8)
                &&& f.spec_index_in_current() == 0
                &&& f.spec_block_index() == 0
                &&& f.spec_offset_in_block() == 0
                &&& f.spec_initial_data_blocks() == f.spec_data_blocks()
                &&& f.spec_initial_extension() == f.spec_next_extension()
                &&& f.spec_initial_first_data() == f.spec_current_data_block()
                &&& f.spec_initial_blocks_in_header() == f.spec_blocks_in_current()
            },
            r matches Err(e) ==> e == AffsError::BlockReadError || e
                == AffsError::InvalidBlockType || e == AffsError::ChecksumMismatch || e
                == AffsError::NotAFile,
    {
        let mut buf = [0u8; BLOCK_SIZE];
        match device.read_block(header_block, &mut buf) {
            Ok(()) => (),
            Err(()) => {
                return Err(AffsError::BlockReadError);
            },
        }
        let entry = match EntryBlock::parse(&buf) {
            Ok(e) => e,
            Err(e) => {
                return Err(e);
            },
        };
        if !entry.is_file() {
            return Err(AffsError::NotAFile);
        }
        Ok(Self::init(device, fs_type, header_block, &entry, buf))
    }

    /// Create a file reader from an already-parsed entry block.
    ///
    /// This avoids re-reading the header block if you already have it.
    pub fn from_entry(
        device: &'a D,
        fs_type: FsType,
        header_block: u32,
        entry: &EntryBlock,
    ) -> (r: Result<Self, AffsError>)
        ensures
            !(entry.sec_type == ST_FILE || entry.sec_type == ST_LFILE) <==> r == Result::<
                Self,
                AffsError,
            >::Err(AffsError::NotAFile),
            (entry.sec_type == ST_FILE || entry.sec_type == ST_LFILE) ==> r is Ok,
            r matches Ok(f) ==> f.wf() && f.spec_position() == 0 && f.spec_header_block()
                == header_block && f.spec_fs_type() == fs_type && f.spec_initialized_from(*entry),
    {
        if !entry.is_file() {
            return Err(AffsError::NotAFile);
        }
        Ok(Self::init(device, fs_type, header_block, entry, [0u8; BLOCK_SIZE]))
    }

    /// Get the total file size in bytes.
    pub fn size(&self) -> (r: u32)
        ensures
            r == self.spec_size(),
    {
        self.file_size
    }

    /// Get the block number of the file header.
    pub fn header_block(&self) -> (r: u32)
        ensures
            r == self.spec_header_block(),
    {
        self.header_block
    }

    /// Get the number of bytes remaining to read.
    pub fn remaining(&self) -> (r: u32)
        ensures
            r == self.spec_remaining(),
    {
        self.remaining
    }

    /// Check if we've reached end of file.
    pub fn is_eof(&self) -> (r: bool)
        ensures
            r == (self.spec_remaining() == 0),
    {
        self.remaining == 0
    }

    /// Get current position in the file.
    pub fn position(&self) -> (r: u32)
        requires
            self.wf(),
        ensures
            r == self.spec_position(),
    {
        self.file_size - self.remaining
    }

    /// Reset the reader to the beginning of the file.
    ///
    /// This restores all traversal state captured at construction, without
    /// re-reading the header from storage.
    pub fn reset(&mut self)
        requires
            old(self).wf(),
        ensures
            final(self).wf(),
            final(self).spec_size() == old(self).spec_size(),
            final(self).spec_remaining() == final(self).spec_size(),
            final(self).spec_position() == 0,
            final(self).spec_header_block() == old(self).spec_header_block(),
            final(self).spec_fs_type() == old(self).spec_fs_type(),
            // The whole traversal state returns to the values captured at
            // construction; no device access is involved.
            final(self).spec_block_index() == 0,
            final(self).spec_index_in_current() == 0,
            final(self).spec_offset_in_block() == 0,
            final(self).spec_blocks_in_current() == old(self).spec_initial_blocks_in_header(),
            final(self).spec_data_blocks() == old(self).spec_initial_data_blocks(),
            final(self).spec_next_extension() == old(self).spec_initial_extension(),
            final(self).spec_current_data_block() == old(self).spec_initial_first_data(),
            final(self).spec_initial_blocks_in_header()
                == old(self).spec_initial_blocks_in_header(),
            final(self).spec_initial_data_blocks() == old(self).spec_initial_data_blocks(),
            final(self).spec_initial_extension() == old(self).spec_initial_extension(),
            final(self).spec_initial_first_data() == old(self).spec_initial_first_data(),
            final(self).spec_buf() == old(self).spec_buf(),
    {
        self.remaining = self.file_size;
        self.block_index = 0;
        self.blocks_in_current = self.initial_blocks_in_header;
        self.index_in_current = 0;
        self.data_blocks = self.initial_data_blocks;
        self.next_extension = self.initial_extension;
        self.current_data_block = self.initial_first_data;
        self.offset_in_block = 0;
    }

    /// Get data block payload size for this filesystem type.
    fn data_block_size(&self) -> (r: usize)
        ensures
            r == spec_data_block_size(self.spec_fs_type()),
    {
        match self.fs_type {
            FsType::Ofs => OFS_DATA_SIZE,
            FsType::Ffs => FFS_DATA_SIZE,
        }
    }

    /// Get the data offset within a block.
    fn data_offset(&self) -> (r: usize)
        ensures
            self.spec_fs_type() == FsType::Ofs ==> r == 24,
            self.spec_fs_type() == FsType::Ffs ==> r == 0,
            r + spec_data_block_size(self.spec_fs_type()) <= BLOCK_SIZE,
    {
        match self.fs_type {
            FsType::Ofs => 24,
            FsType::Ffs => 0,
        }
    }

    /// Get the usable payload size in the currently loaded block: the
    /// block's own declared size for OFS (never more than 488), the full
    /// block for FFS except at the end of the file.
    fn current_block_data_size(&self) -> (r: usize)
        requires
            self.wf(),
        ensures
            r <= spec_data_block_size(self.spec_fs_type()),
            self.spec_fs_type() == FsType::Ofs && ofs_data_parse_ok(self.spec_buf()) ==> r == (
            if be32_at(self.spec_buf(), 12) > 488 {
                488int
            } else {
                be32_at(self.spec_buf(), 12) as int
            }),
            self.spec_fs_type() == FsType::Ofs && !ofs_data_parse_ok(self.spec_buf()) ==> r == 0,
            self.spec_fs_type() == FsType::Ffs ==> r == (if self.spec_remaining()
                + self.spec_offset_in_block() > 512 {
                512int
            } else {
                self.spec_remaining() + self.spec_offset_in_block()
            }),
    {
        match self.fs_type {
            FsType::Ofs => {
                // OFS declares the payload size in the block header.
                match OfsDataBlock::parse(&self.buf) {
                    Ok(h) => {
                        if h.data_size > OFS_DATA_SIZE as u32 {
                            OFS_DATA_SIZE
                        } else {
                            h.data_size as usize
                        }
                    },
                    Err(_) => 0,
                }
            },
            FsType::Ffs => {
                // FFS uses the full block, but the last block may be partial.
                let avail: u64 = self.remaining as u64 + self.offset_in_block as u64;
                if avail >= FFS_DATA_SIZE as u64 {
                    FFS_DATA_SIZE
                } else {
                    avail as usize
                }
            },
        }
    }

    /// Load the next data block into the internal buffer.
    fn read_next_data_block(&mut self) -> (r: Result<(), AffsError>)
        requires
            old(self).wf(),
        ensures
            final(self).wf(),
            final(self).spec_size() == old(self).spec_size(),
            final(self).spec_remaining() == old(self).spec_remaining(),
            final(self).spec_header_block() == old(self).spec_header_block(),
            final(self).spec_fs_type() == old(self).spec_fs_type(),
            r is Ok ==> final(self).spec_offset_in_block() == 0,
            r matches Err(e) ==> e != AffsError::BufferTooSmall,
            // A zero next-block pointer is the end of the file.
            old(self).spec_fs_type() == FsType::Ffs && old(self).spec_index_in_current()
                >= old(self).spec_blocks_in_current() && old(self).spec_next_extension() == 0 ==> r == Result::<
                (),
                AffsError,
            >::Err(AffsError::EndOfFile) && *final(self) == *old(self),
            old(self).spec_fs_type() == FsType::Ofs && old(self).spec_block_index() == 0
                && old(self).spec_current_data_block() == 0 ==> r == Result::<(), AffsError>::Err(
                AffsError::EndOfFile,
            ) && *final(self) == *old(self),
    {
        let block = match self.get_next_data_block() {
            Ok(b) => b,
            Err(e) => {
                return Err(e);
            },
        };
        if block == 0 {
            return Err(AffsError::EndOfFile);
        }
        match self.device.read_block(block, &mut self.buf) {
            Ok(()) => (),
            Err(()) => {
                return Err(AffsError::BlockReadError);
            },
        }
        // Validate OFS data blocks before using them.
        match self.fs_type {
            FsType::Ofs => {
                match OfsDataBlock::parse(&self.buf) {
                    Ok(_) => (),
                    Err(e) => {
                        return Err(e);
                    },
                }
            },
            FsType::Ffs => (),
        }
        self.offset_in_block = 0;
        self.block_index = self.block_index.wrapping_add(1);
        Ok(())
    }

    /// The byte offset within the currently loaded block.
    pub closed spec fn spec_offset_in_block(&self) -> usize {
        self.offset_in_block
    }

    /// Get the next data block number.
    fn get_next_data_block(&mut self) -> (r: Result<u32, AffsError>)
        requires
            old(self).wf(),
        ensures
            final(self).wf(),
            final(self).spec_size() == old(self).spec_size(),
            final(self).spec_remaining() == old(self).spec_remaining(),
            final(self).spec_header_block() == old(self).spec_header_block(),
            final(self).spec_fs_type() == old(self).spec_fs_type(),
            final(self).spec_offset_in_block() == old(self).spec_offset_in_block(),
            r matches Err(e) ==> e != AffsError::BufferTooSmall,
            old(self).spec_fs_type() == FsType::Ffs && old(self).spec_index_in_current()
                >= old(self).spec_blocks_in_current() && old(self).spec_next_extension() == 0
                ==> r == Result::<u32, AffsError>::Ok(0u32) && *final(self) == *old(self),
            old(self).spec_fs_type() == FsType::Ofs && old(self).spec_block_index() == 0 ==> r
                == Result::<u32, AffsError>::Ok(old(self).spec_current_data_block()) && *final(self) == *old(self),
    {
        match self.fs_type {
            FsType::Ofs => self.get_next_ofs_block(),
            FsType::Ffs => self.get_next_ffs_block(),
        }
    }

    /// Get next data block for OFS (follows the linked list).
    fn get_next_ofs_block(&mut self) -> (r: Result<u32, AffsError>)
        requires
            old(self).wf(),
        ensures
            final(self).wf(),
            final(self).spec_size() == old(self).spec_size(),
            final(self).spec_remaining() == old(self).spec_remaining(),
            final(self).spec_header_block() == old(self).spec_header_block(),
            final(self).spec_fs_type() == old(self).spec_fs_type(),
            final(self).spec_offset_in_block() == old(self).spec_offset_in_block(),
            final(self).spec_buf() == old(self).spec_buf(),
            r matches Err(e) ==> e != AffsError::BufferTooSmall,
            old(self).spec_block_index() == 0 ==> r == Result::<u32, AffsError>::Ok(
                old(self).spec_current_data_block(),
            ) && *final(self) == *old(self),
            old(self).spec_block_index() != 0 && ofs_data_parse_ok(old(self).spec_buf()) ==> r
                == Result::<u32, AffsError>::Ok(be32_at(old(self).spec_buf(), 16)) && final(self).spec_current_data_block() == be32_at(old(self).spec_buf(), 16),
            old(self).spec_block_index() != 0 && !ofs_data_parse_ok(old(self).spec_buf()) ==> r
                is Err && *final(self) == *old(self),
    {
        if self.block_index == 0 {
            // First block - use first_data from the header.
            return Ok(self.current_data_block);
        }
        // Follow the linked list: the buffer still holds the previous block.
        match OfsDataBlock::parse(&self.buf) {
            Ok(header) => {
                self.current_data_block = header.next_data;
                Ok(header.next_data)
            },
            Err(e) => Err(e),
        }
    }

    /// Get next data block for FFS (uses the reverse-ordered pointer table,
    /// refilled from extension blocks).
    fn get_next_ffs_block(&mut self) -> (r: Result<u32, AffsError>)
        requires
            old(self).wf(),
        ensures
            final(self).wf(),
            final(self).spec_size() == old(self).spec_size(),
            final(self).spec_remaining() == old(self).spec_remaining(),
            final(self).spec_header_block() == old(self).spec_header_block(),
            final(self).spec_fs_type() == old(self).spec_fs_type(),
            final(self).spec_offset_in_block() == old(self).spec_offset_in_block(),
            r matches Err(e) ==> e != AffsError::BufferTooSmall,
            // Within the current table: hand out the next pointer, in
            // reverse order, and advance the cursor.
            old(self).spec_index_in_current() < old(self).spec_blocks_in_current() ==> r
                == Result::<u32, AffsError>::Ok(
                if old(self).spec_index_in_current() < MAX_DATABLK {
                    old(self).spec_data_blocks()[
                        MAX_DATABLK - 1 - old(self).spec_index_in_current()
                    ]
                } else {
                    0u32
                },
            ) && final(self).spec_index_in_current() == old(self).spec_index_in_current() + 1
                && final(self).spec_data_blocks() == old(self).spec_data_blocks()
                && final(self).spec_buf() == old(self).spec_buf(),
            // Table exhausted and no extension left: end of file.
            old(self).spec_index_in_current() >= old(self).spec_blocks_in_current() && old(self).spec_next_extension() == 0 ==> r == Result::<u32, AffsError>::Ok(0u32)
                && *final(self) == *old(self),
            // An extension block was loaded: on success the new table,
            // count and next-extension pointer come from the bytes that
            // arrived, and the result is the table's first pointer.
            old(self).spec_index_in_current() >= old(self).spec_blocks_in_current() && old(self).spec_next_extension() != 0 && r is Ok ==> file_ext_parse_ok(final(self).spec_buf())
                && final(self).spec_blocks_in_current() == be32_at(final(self).spec_buf(), 8)
                && final(self).spec_next_extension() == be32_at(final(self).spec_buf(), 0x1F8)
                && (forall|i: int|
                0 <= i < MAX_DATABLK ==> #[trigger] final(self).spec_data_blocks()[i] == be32_at(
                    final(self).spec_buf(),
                    24 + 4 * i,
                )) && (if final(self).spec_blocks_in_current() == 0 {
                r == Result::<u32, AffsError>::Ok(0u32) && final(self).spec_index_in_current()
                    == 0
            } else {
                r == Result::<u32, AffsError>::Ok(final(self).spec_data_blocks()[MAX_DATABLK - 1])
                    && final(self).spec_index_in_current() == 1
            }),
    {
        // Check if we need to load an extension block
        if self.index_in_current >= self.blocks_in_current {
            if self.next_extension == 0 {
                return Ok(0);  // No more blocks
            }
            // Load extension block
            match self.device.read_block(self.next_extension, &mut self.buf) {
                Ok(()) => (),
                Err(()) => {
                    return Err(AffsError::BlockReadError);
                },
            }
            let ext = match FileExtBlock::parse(&self.buf) {
                Ok(e) => e,
                Err(e) => {
                    return Err(e);
                },
            };
            self.data_blocks = ext.data_blocks;
            self.blocks_in_current = count_of_high_seq(ext.high_seq);
            self.next_extension = ext.extension;
            self.index_in_current = 0;
        }
        if self.index_in_current >= self.blocks_in_current {
            return Ok(0);
        }
        // Get block pointer (stored in reverse order)
        let idx = self.index_in_current as usize;
        let block = if idx < MAX_DATABLK {
            self.data_blocks[MAX_DATABLK - 1 - idx]
        } else {
            0
        };
        self.index_in_current += 1;
        Ok(block)
    }

    /// Read into `out` starting at `start`: the worker behind `read` and
    /// `read_all`.
    fn read_into(&mut self, out: &mut [u8], start: usize) -> (r: Result<usize, AffsError>)
        requires
            old(self).wf(),
            start <= old(out)@.len(),
        ensures
            final(self).wf(),
            final(out)@.len() == old(out)@.len(),
            final(self).spec_size() == old(self).spec_size(),
            final(self).spec_header_block() == old(self).spec_header_block(),
            final(self).spec_fs_type() == old(self).spec_fs_type(),
            final(self).spec_remaining() <= old(self).spec_remaining(),
            forall|i: int| 0 <= i < start ==> final(out)@[i] == old(out)@[i],
            r matches Ok(n) ==> start + n <= old(out)@.len() && n <= old(self).spec_remaining()
                && final(self).spec_remaining() == old(self).spec_remaining() - n && forall|i: int|
                start + n <= i < old(out)@.len() ==> final(out)@[i] == old(out)@[i],
            old(self).spec_remaining() == 0 || old(out)@.len() == start ==> r == Result::<
                usize,
                AffsError,
            >::Ok(0) && *final(self) == *old(self) && final(out)@ == old(out)@,
            // For FFS the delivered count is device-independent: a
            // successful read returns exactly the smaller of the buffer
            // space and the bytes remaining.
            old(self).spec_fs_type() == FsType::Ffs ==> (r matches Ok(n) ==> n == (
            if old(out)@.len() - start <= old(self).spec_remaining() {
                old(out)@.len() - start
            } else {
                old(self).spec_remaining() as int
            })),
            r matches Err(e) ==> e != AffsError::BufferTooSmall,
    {
        if self.remaining == 0 || out.len() == start {
            return Ok(0);
        }
        let mut total_read: usize = 0;
        while start + total_read < out.len() && self.remaining > 0
            invariant
                self.wf(),
                out@.len() == old(out)@.len(),
                out@.len() <= usize::MAX,
                start + total_read <= out@.len(),
                self.spec_size() == old(self).spec_size(),
                self.spec_header_block() == old(self).spec_header_block(),
                self.spec_fs_type() == old(self).spec_fs_type(),
                total_read <= old(self).spec_remaining(),
                self.spec_remaining() == old(self).spec_remaining() - total_read,
                forall|i: int| 0 <= i < start ==> out@[i] == old(out)@[i],
                forall|i: int| start + total_read <= i < out@.len() ==> out@[i] == old(out)@[i],
            ensures
                self.spec_fs_type() == FsType::Ffs ==> start + total_read == out@.len()
                    || self.spec_remaining() == 0,
            decreases out@.len() - start - total_read,
        {
            // Load a new data block when the current one is exhausted.
            if self.offset_in_block == 0 || self.offset_in_block >= self.data_block_size() {
                match self.read_next_data_block() {
                    Ok(()) => (),
                    Err(e) => {
                        return Err(e);
                    },
                }
            }
            // How much can be taken from the current block.
            let data_size = self.current_block_data_size();
            let available = if data_size >= self.offset_in_block {
                data_size - self.offset_in_block
            } else {
                0
            };
            let mut to_read = available;
            let out_space = out.len() - start - total_read;
            if to_read > out_space {
                to_read = out_space;
            }
            if (to_read as u64) > (self.remaining as u64) {
                to_read = self.remaining as usize;
            }
            if to_read == 0 {
                proof {
                    // Unreachable for FFS: the loaded block always offers
                    // at least one byte while bytes and space remain.
                    if self.spec_fs_type() == FsType::Ffs {
                        assert(false);
                    }
                }
                break ;
            }
            let data_start = self.data_offset();
            copy_to_out(
                out,
                start + total_read,
                &self.buf,
                data_start + self.offset_in_block,
                to_read,
            );
            total_read += to_read;
            self.offset_in_block += to_read;
            self.remaining -= to_read as u32;
        }
        Ok(total_read)
    }

    /// Read data into a buffer.
    ///
    /// Returns the number of bytes read: zero exactly at end of file or for
    /// an empty buffer, and fewer bytes than requested only when the end of
    /// the file is reached mid-read.
    pub fn read(&mut self, out: &mut [u8]) -> (r: Result<usize, AffsError>)
        requires
            old(self).wf(),
        ensures
            final(self).wf(),
            final(out)@.len() == old(out)@.len(),
            final(self).spec_size() == old(self).spec_size(),
            final(self).spec_header_block() == old(self).spec_header_block(),
            final(self).spec_fs_type() == old(self).spec_fs_type(),
            final(self).spec_remaining() <= old(self).spec_remaining(),
            r matches Ok(n) ==> n <= old(out)@.len() && n <= old(self).spec_remaining() && final(self).spec_remaining() == old(self).spec_remaining() - n && forall|i: int|
                n <= i < old(out)@.len() ==> final(out)@[i] == old(out)@[i],
            old(self).spec_remaining() == 0 || old(out)@.len() == 0 ==> r == Result::<
                usize,
                AffsError,
            >::Ok(0) && *final(self) == *old(self) && final(out)@ == old(out)@,
            // For FFS the delivered count is device-independent: a
            // successful read returns exactly the smaller of the buffer
            // length and the bytes remaining.
            old(self).spec_fs_type() == FsType::Ffs ==> (r matches Ok(n) ==> n == (
            if old(out)@.len() <= old(self).spec_remaining() {
                old(out)@.len() as int
            } else {
                old(self).spec_remaining() as int
            })),
    {
        self.read_into(out, 0)
    }

    /// Read the entire remaining file contents into a buffer.
    ///
    /// Fails with `BufferTooSmall` exactly when the buffer is smaller than
    /// the bytes remaining.
    pub fn read_all(&mut self, out: &mut [u8]) -> (r: Result<usize, AffsError>)
        requires
            old(self).wf(),
        ensures
            final(self).wf(),
            final(out)@.len() == old(out)@.len(),
            final(self).spec_size() == old(self).spec_size(),
            final(self).spec_header_block() == old(self).spec_header_block(),
            final(self).spec_fs_type() == old(self).spec_fs_type(),
            final(self).spec_remaining() <= old(self).spec_remaining(),
            old(out)@.len() < old(self).spec_remaining() <==> r == Result::<usize, AffsError>::Err(
                AffsError::BufferTooSmall,
            ),
            r == Result::<usize, AffsError>::Err(AffsError::BufferTooSmall) ==> *final(self) == *old(self) && final(out)@
                == old(out)@,
            r matches Ok(n) ==> n <= old(self).spec_remaining() && n <= old(out)@.len() && final(self).spec_remaining() == old(self).spec_remaining() - n && forall|i: int|
                n <= i < old(out)@.len() ==> final(out)@[i] == old(out)@[i],
            old(self).spec_remaining() == 0 ==> r == Result::<usize, AffsError>::Ok(0) && *final(self) == *old(self)
                && final(out)@ == old(out)@,
            // For FFS a successful read_all returns exactly the bytes that
            // remained.
            old(self).spec_fs_type() == FsType::Ffs ==> (r matches Ok(n) ==> n == old(self).spec_remaining()
                && final(self).spec_remaining() == 0),
    {
        if out.len() < self.remaining as usize {
            return Err(AffsError::BufferTooSmall);
        }
        if self.remaining == 0 {
            return Ok(0);
        }
        let mut total: usize = 0;
        while self.remaining > 0
            invariant
                self.wf(),
                out@.len() == old(out)@.len(),
                old(self).spec_remaining() <= old(out)@.len(),
                total <= old(self).spec_remaining(),
                self.spec_size() == old(self).spec_size(),
                self.spec_header_block() == old(self).spec_header_block(),
                self.spec_fs_type() == old(self).spec_fs_type(),
                self.spec_remaining() == old(self).spec_remaining() - total,
                forall|i: int| total <= i < out@.len() ==> out@[i] == old(out)@[i],
            ensures
                self.spec_fs_type() == FsType::Ffs ==> self.spec_remaining() == 0,
            decreases self.spec_remaining(),
        {
            let n = match self.read_into(out, total) {
                Ok(n) => n,
                Err(e) => {
                    return Err(e);
                },
            };
            if n == 0 {
                proof {
                    // Unreachable for FFS: with bytes remaining and buffer
                    // space left, the count is positive.
                    if self.spec_fs_type() == FsType::Ffs {
                        assert(false);
                    }
                }
                break ;
            }
            total += n;
        }
        Ok(total)
    }

    /// Seek to a byte position in the file.
    ///
    /// A position past the end of the file fails with `EndOfFile` and
    /// changes nothing. Seeking to the current position is a no-op; seeking
    /// backwards resets to the beginning first; the reader then skips
    /// forward by reading and discarding, so on success the position is
    /// exactly the one requested.
    pub fn seek(&mut self, position: u32) -> (r: Result<(), AffsError>)
        requires
            old(self).wf(),
        ensures
            final(self).wf(),
            final(self).spec_size() == old(self).spec_size(),
            final(self).spec_header_block() == old(self).spec_header_block(),
            final(self).spec_fs_type() == old(self).spec_fs_type(),
            position > old(self).spec_size() ==> r == Result::<(), AffsError>::Err(
                AffsError::EndOfFile,
            ) && *final(self) == *old(self),
            position <= old(self).spec_size() && position == old(self).spec_position() ==> r
                == Result::<(), AffsError>::Ok(()) && *final(self) == *old(self),
            r is Ok ==> final(self).spec_position() == position,
    {
        if position > self.file_size {
            return Err(AffsError::EndOfFile);
        }
        let cur = self.file_size - self.remaining;
        if position == cur {
            return Ok(());
        }
        // For backward seeks, reset to the beginning first.
        if position < cur {
            self.reset();
        }
        // Skip forward block by block, discarding the payload.
        let mut to_skip: u32 = position - (self.file_size - self.remaining);
        while to_skip > 0
            invariant
                self.wf(),
                position != old(self).spec_position(),
                self.spec_size() == old(self).spec_size(),
                self.spec_header_block() == old(self).spec_header_block(),
                self.spec_fs_type() == old(self).spec_fs_type(),
                to_skip <= self.spec_remaining(),
                self.spec_position() + to_skip == position,
                position <= self.spec_size(),
            decreases to_skip,
        {
            if self.offset_in_block == 0 || self.offset_in_block >= self.data_block_size() {
                match self.read_next_data_block() {
                    Ok(()) => (),
                    Err(e) => {
                        return Err(e);
                    },
                }
            }
            let data_size = self.current_block_data_size();
            let available = if data_size >= self.offset_in_block {
                data_size - self.offset_in_block
            } else {
                0
            };
            let mut step = available;
            if (step as u64) > (to_skip as u64) {
                step = to_skip as usize;
            }
            if step == 0 {
                return Err(AffsError::EndOfFile);
            }
            self.offset_in_block += step;
            self.remaining -= step as u32;
            to_skip -= step as u32;
        }
        Ok(())
    }
}

} // verus!
