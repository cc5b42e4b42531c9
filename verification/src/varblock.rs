//! Variable block size AFFS reader for hard disk partitions.
//!
//! AFFS on hard disks can use block sizes of 512, 1024, 2048, 4096, or 8192
//! bytes. The block size is not stored in the filesystem and must be
//! determined by probing: try reading the root block at each possible block
//! size until its tags and checksum validate. Directory and entry metadata
//! is anchored to the end of the block, so all such offsets are computed
//! relative to the block size.
use vstd::prelude::*;

use crate::checksum::{
    be32_at, be32_signed_at, boot_sum, normal_sum_slice, read_i32_be_slice, read_u32_be_slice,
    spec_boot_sum, spec_normal_sum,
};
use crate::constants::{
    BLOCK_SIZE, BOOT_BLOCK_SIZE, DOSFS_DIRCACHE, DOSFS_FFS, DOSFS_INTL, FILE_LOCATION,
    MAX_BOOT_BLOCK, MAX_LOG_BLOCK_SIZE,
    MAX_NAME_LEN, ST_DIR, ST_LDIR, ST_LSOFT, ST_ROOT, SYMLINK_OFFSET, T_HEADER,
};
use crate::date::{spec_div50_trunc, AmigaDate};
use crate::dir::copy_prefix;
use crate::error::AffsError;
use crate::symlink::read_symlink_target_with_block_size;
use crate::types::{spec_entry_type, EntryType, FsFlags, FsType, SectorDevice};
use crate::utf8::{from_utf8, utf8_decode};

verus! {

/// Maximum block size supported (8192 bytes = 16 sectors).
pub const MAX_BLOCK_SIZE: usize = 8192;

/// The largest hash table the variable-size directory iterator can hold.
pub const MAX_VAR_HASH_TABLE: usize = 256;

/// A valid geometry: the block size is 512 shifted left by the log factor,
/// one of the five supported sizes.
pub open spec fn spec_geometry_ok(log_blocksize: u8, block_size: usize) -> bool {
    ||| (log_blocksize == 0 && block_size == 512)
    ||| (log_blocksize == 1 && block_size == 1024)
    ||| (log_blocksize == 2 && block_size == 2048)
    ||| (log_blocksize == 3 && block_size == 4096)
    ||| (log_blocksize == 4 && block_size == 8192)
}

/// The block size in bytes that a log factor denotes.
pub open spec fn spec_block_size_of(log_blocksize: u8) -> int {
    if log_blocksize == 0 {
        512
    } else if log_blocksize == 1 {
        1024
    } else if log_blocksize == 2 {
        2048
    } else if log_blocksize == 3 {
        4096
    } else {
        8192
    }
}

proof fn lemma_sector_product_bound(block: u64, spb: u64)
    requires
        block <= 0xFFFFFFFF,
        spb <= 16,
    ensures
        block * spb <= 0xFFFFFFFF * 16,
{
    assert(block * spb <= 0xFFFFFFFF * 16) by (nonlinear_arith)
        requires
            block <= 0xFFFFFFFF,
            spb <= 16,
    ;
}

/// The block size that belongs to a log factor.
fn block_size_of(log_blocksize: u8) -> (r: usize)
    requires
        log_blocksize <= MAX_LOG_BLOCK_SIZE,
    ensures
        spec_geometry_ok(log_blocksize, r),
{
    match log_blocksize {
        0 => 512,
        1 => 1024,
        2 => 2048,
        3 => 4096,
        _ => 8192,
    }
}

/// Read `nbytes / 512` consecutive sectors into the front of `buf`.
fn read_sectors<D: SectorDevice, const N: usize>(
    device: &D,
    start_sector: u64,
    buf: &mut [u8; N],
    nbytes: usize,
) -> (r: Result<(), AffsError>)
    requires
        nbytes <= N,
        start_sector <= 0xFFFFFFFFFFFF,
    ensures
        r matches Err(e) ==> e == AffsError::BlockReadError,
{
    let num_sectors = nbytes / BLOCK_SIZE;
    let mut sector_buf = [0u8; BLOCK_SIZE];
    let mut i: usize = 0;
    while i < num_sectors
        invariant
            i <= num_sectors,
            num_sectors == nbytes as int / 512,
            nbytes <= N,
            start_sector <= 0xFFFFFFFFFFFF,
        decreases num_sectors - i,
    {
        match device.read_sector(start_sector + i as u64, &mut sector_buf) {
            Ok(()) => (),
            Err(()) => {
                return Err(AffsError::BlockReadError);
            },
        }
        let mut j: usize = 0;
        while j < BLOCK_SIZE
            invariant
                j <= BLOCK_SIZE,
                i < num_sectors,
                num_sectors == nbytes as int / 512,
                nbytes <= N,
            decreases BLOCK_SIZE - j,
        {
            buf[i * BLOCK_SIZE + j] = sector_buf[j];
            j += 1;
        }
        i += 1;
    }
    Ok(())
}

/// What the root-block probe extracts at a candidate block size.
struct VarRootInfo {
    hash_table_size: u32,
    disk_name: [u8; MAX_NAME_LEN],
    disk_name_len: u8,
    creation_date: AmigaDate,
    last_modified: AmigaDate,
}

/// Probe result for the mount operation.
struct ProbeResult {
    fs_type: FsType,
    fs_flags: FsFlags,
    root_block: u32,
    log_blocksize: u8,
    block_size: usize,
    hash_table_size: u32,
    boot_sector: u32,
    disk_name: [u8; MAX_NAME_LEN],
    disk_name_len: u8,
    creation_date: AmigaDate,
    last_modified: AmigaDate,
}

/// Check a candidate boot sector: "DOS" signature, the FFS flag set, and —
/// when boot code is present — a valid boot checksum. Yields the filesystem
/// flags and the stored root block number.
fn probe_boot_sector<D: SectorDevice>(
    device: &D,
    boot_sector: u32,
    buf: &mut [u8; MAX_BLOCK_SIZE],
) -> (r: Option<(FsFlags, u32)>)
    requires
        boot_sector <= 1,
    ensures
        r matches Some((flags, root_block_num)) ==> {
            &&& final(buf)@[0] == 68 && final(buf)@[1] == 79 && final(buf)@[2] == 83
            &&& (final(buf)@[3] & DOSFS_FFS) != 0
            &&& (final(buf)@[12] != 0 ==> be32_at(final(buf)@, 4) == spec_boot_sum(
                final(buf)@.subrange(0, BOOT_BLOCK_SIZE as int),
            ))
            &&& flags.intl == ((final(buf)@[3] & DOSFS_INTL) != 0)
            &&& flags.dircache == ((final(buf)@[3] & DOSFS_DIRCACHE) != 0)
            &&& root_block_num == be32_at(final(buf)@, 8)
        },
{
    match read_sectors(device, boot_sector as u64, buf, BOOT_BLOCK_SIZE) {
        Ok(()) => (),
        Err(_) => {
            return None;
        },
    }
    // Check DOS signature
    if !(buf[0] == 68 && buf[1] == 79 && buf[2] == 83) {
        return None;
    }
    // Check the FFS flag (OFS is not supported for variable block sizes)
    let flags_byte = buf[3];
    if (flags_byte & DOSFS_FFS) == 0 {
        return None;
    }
    // Verify boot checksum if boot code is present
    if buf[12] != 0 {
        let checksum = read_u32_be_slice(buf.as_slice(), 4);
        let mut boot_copy = [0u8; BOOT_BLOCK_SIZE];
        let mut i: usize = 0;
        while i < BOOT_BLOCK_SIZE
            invariant
                i <= BOOT_BLOCK_SIZE,
                forall|j: int| 0 <= j < i ==> boot_copy@[j] == buf@[j],
            decreases BOOT_BLOCK_SIZE - i,
        {
            boot_copy[i] = buf[i];
            i += 1;
        }
        proof {
            assert(boot_copy@ =~= buf@.subrange(0, BOOT_BLOCK_SIZE as int));
        }
        let calculated = boot_sum(&boot_copy);
        if checksum != calculated {
            return None;
        }
    }
    Some((FsFlags::from_dos_type(flags_byte), read_u32_be_slice(buf.as_slice(), 8)))
}

/// Try to decode the root block at one candidate block size: HEADER tag,
/// ROOT secondary type at the block's end, a nonzero hash-table size, and a
/// valid normal checksum over the whole candidate-size buffer.
fn probe_root_at<D: SectorDevice>(
    device: &D,
    root_block_num: u32,
    log_blocksize: u8,
    buf: &mut [u8; MAX_BLOCK_SIZE],
) -> (r: Option<VarRootInfo>)
    requires
        log_blocksize <= MAX_LOG_BLOCK_SIZE,
    ensures
        r matches Some(info) ==> {
            let bs = spec_block_size_of(log_blocksize);
            let b = final(buf)@;
            &&& info.disk_name_len <= MAX_NAME_LEN
            &&& be32_signed_at(b, 0) == T_HEADER as int
            &&& be32_signed_at(b, bs - 4) == ST_ROOT as int
            &&& info.hash_table_size == be32_at(b, 12) && info.hash_table_size != 0
            &&& be32_at(b, 20) == spec_normal_sum(b.subrange(0, bs), 20)
            &&& info.disk_name_len == (if b[bs - FILE_LOCATION + 108] > 30 {
                30u8
            } else {
                b[bs - FILE_LOCATION + 108]
            })
            &&& forall|i: int|
                0 <= i < info.disk_name_len ==> #[trigger] info.disk_name@[i] == b[bs
                    - FILE_LOCATION + 109 + i]
            &&& info.creation_date.days as int == be32_signed_at(
                b,
                bs - FILE_LOCATION + 0x1A4 - (BLOCK_SIZE - FILE_LOCATION),
            )
            &&& info.creation_date.mins as int == be32_signed_at(
                b,
                bs - FILE_LOCATION + 0x1A8 - (BLOCK_SIZE - FILE_LOCATION),
            )
            &&& info.creation_date.ticks as int == be32_signed_at(
                b,
                bs - FILE_LOCATION + 0x1AC - (BLOCK_SIZE - FILE_LOCATION),
            )
            &&& info.last_modified.days as int == be32_signed_at(
                b,
                bs - FILE_LOCATION + 0x1D8 - (BLOCK_SIZE - FILE_LOCATION),
            )
            &&& info.last_modified.mins as int == be32_signed_at(
                b,
                bs - FILE_LOCATION + 0x1DC - (BLOCK_SIZE - FILE_LOCATION),
            )
            &&& info.last_modified.ticks as int == be32_signed_at(
                b,
                bs - FILE_LOCATION + 0x1E0 - (BLOCK_SIZE - FILE_LOCATION),
            )
        },
{
    let block_size = block_size_of(log_blocksize);
    let sectors_per_block = (block_size / BLOCK_SIZE) as u64;
    proof {
        lemma_sector_product_bound(root_block_num as u64, (block_size / BLOCK_SIZE) as u64);
    }
    let root_sector = (root_block_num as u64) * sectors_per_block;
    match read_sectors(device, root_sector, buf, block_size) {
        Ok(()) => (),
        Err(_) => {
            return None;
        },
    }
    let s = buf.as_slice();
    // Validate root block type
    let block_type = read_i32_be_slice(s, 0);
    if block_type != T_HEADER {
        return None;
    }
    // Validate secondary type (at the end of the block)
    let sec_type = read_i32_be_slice(s, block_size - 4);
    if sec_type != ST_ROOT {
        return None;
    }
    // Validate hash table size
    let hash_table_size = read_u32_be_slice(s, 12);
    if hash_table_size == 0 {
        return None;
    }
    // Validate checksum over the candidate-size buffer
    let checksum = read_u32_be_slice(s, 20);
    let calculated = normal_sum_slice(&buf[0..block_size], 20);
    if checksum != calculated {
        return None;
    }
    // Disk name, anchored to the end of the block
    let name_offset = block_size - FILE_LOCATION + 108;
    let nl = buf[name_offset];
    let disk_name_len: u8 = if nl > 30 {
        30
    } else {
        nl
    };
    let disk_name: [u8; MAX_NAME_LEN] = copy_prefix(
        &buf[name_offset + 1..name_offset + 1 + MAX_NAME_LEN],
        disk_name_len as usize,
    );
    // Dates, anchored to the end of the block
    let date_offset = block_size - FILE_LOCATION + 0x1A4 - (BLOCK_SIZE - FILE_LOCATION);
    let creation_date = AmigaDate::new(
        read_i32_be_slice(s, date_offset),
        read_i32_be_slice(s, date_offset + 4),
        read_i32_be_slice(s, date_offset + 8),
    );
    let mod_offset = block_size - FILE_LOCATION + 0x1D8 - (BLOCK_SIZE - FILE_LOCATION);
    let last_modified = AmigaDate::new(
        read_i32_be_slice(s, mod_offset),
        read_i32_be_slice(s, mod_offset + 4),
        read_i32_be_slice(s, mod_offset + 8),
    );
    Some(VarRootInfo { hash_table_size, disk_name, disk_name_len, creation_date, last_modified })
}

/// Variable block size AFFS reader.
///
/// Supports AFFS filesystems with block sizes from 512 to 8192 bytes, as
/// used on Amiga hard disk partitions.
pub struct AffsReaderVar<'a, D: SectorDevice> {
    device: &'a D,
    /// Filesystem type (always FFS here).
    fs_type: FsType,
    /// Filesystem flags.
    fs_flags: FsFlags,
    /// Root block number (in filesystem blocks).
    root_block: u32,
    /// Total blocks on device.
    total_blocks: u32,
    /// Log2 of block size relative to 512 (0=512, 1=1024, ..., 4=8192).
    log_blocksize: u8,
    /// Actual block size in bytes.
    block_size: usize,
    /// Hash table size (entries per directory).
    hash_table_size: u32,
    /// Boot block sector offset (0 or 1).
    boot_sector: u32,
    /// Disk name from root block.
    disk_name: [u8; MAX_NAME_LEN],
    /// Disk name length.
    disk_name_len: u8,
    /// Volume creation date.
    creation_date: AmigaDate,
    /// Volume last modification date.
    last_modified: AmigaDate,
}

impl<'a, D: SectorDevice> AffsReaderVar<'a, D> {
    /// The probed geometry is one of the supported ones and the decoded
    /// fields are within bounds.
    pub closed spec fn wf(&self) -> bool {
        spec_geometry_ok(self.log_blocksize, self.block_size) && self.disk_name_len
            <= MAX_NAME_LEN && self.hash_table_size != 0 && self.boot_sector <= 1
    }

    /// The probed block size in bytes.
    pub closed spec fn spec_block_size(&self) -> usize {
        self.block_size
    }

    /// The probed log2 block size factor.
    pub closed spec fn spec_log_blocksize(&self) -> u8 {
        self.log_blocksize
    }

    /// The root block number.
    pub closed spec fn spec_root_block(&self) -> u32 {
        self.root_block
    }

    /// The total number of filesystem blocks.
    pub closed spec fn spec_total_blocks(&self) -> u32 {
        self.total_blocks
    }

    /// The probed hash table size.
    pub closed spec fn spec_hash_table_size(&self) -> u32 {
        self.hash_table_size
    }

    /// The filesystem flags.
    pub closed spec fn spec_fs_flags(&self) -> FsFlags {
        self.fs_flags
    }

    /// The disk name bytes.
    pub closed spec fn spec_disk_name(&self) -> Seq<u8> {
        self.disk_name@.subrange(0, self.disk_name_len as int)
    }

    /// The volume creation date.
    pub closed spec fn spec_creation_date(&self) -> AmigaDate {
        self.creation_date
    }

    /// The volume last modification date.
    pub closed spec fn spec_last_modified(&self) -> AmigaDate {
        self.last_modified
    }

    /// Create a new variable block size AFFS reader.
    ///
    /// Probes boot sectors 0 and 1 and every candidate block size until a
    /// root block validates; fails with `InvalidDosType` when no
    /// combination does.
    pub fn new(device: &'a D, total_sectors: u64) -> (r: Result<Self, AffsError>)
        ensures
            r matches Ok(v) ==> v.wf() && spec_geometry_ok(
                v.spec_log_blocksize(),
                v.spec_block_size(),
            ) && v.spec_hash_table_size() != 0 && v.spec_fs_type() == FsType::Ffs && v.spec_total_blocks() as int == (total_sectors as int / (
                v.spec_block_size() as int / 512)) % 0x100000000,
            // Probing swallows every per-combination failure, so the only
            // error a failed mount reports is InvalidDosType.
            r matches Err(e) ==> e == AffsError::InvalidDosType,
    {
        let result = Self::probe(device)?;
        let sectors_per_block = (result.block_size / BLOCK_SIZE) as u64;
        let total_blocks: u32 = ((total_sectors / sectors_per_block) % 0x100000000) as u32;
        Ok(
            AffsReaderVar {
                device,
                fs_type: result.fs_type,
                fs_flags: result.fs_flags,
                root_block: result.root_block,
                total_blocks,
                log_blocksize: result.log_blocksize,
                block_size: result.block_size,
                hash_table_size: result.hash_table_size,
                boot_sector: result.boot_sector,
                disk_name: result.disk_name,
                disk_name_len: result.disk_name_len,
                creation_date: result.creation_date,
                last_modified: result.last_modified,
            },
        )
    }

    /// Probe the filesystem to determine boot sector and block size.
    fn probe(device: &'a D) -> (r: Result<ProbeResult, AffsError>)
        ensures
            r matches Ok(p) ==> spec_geometry_ok(p.log_blocksize, p.block_size)
                && p.disk_name_len <= MAX_NAME_LEN && p.hash_table_size != 0 && p.boot_sector <= 1
                && p.fs_type == FsType::Ffs,
            // Every failed probe combination is skipped, so the only
            // failure the probe itself reports is InvalidDosType.
            r matches Err(e) ==> e == AffsError::InvalidDosType,
    {
        let mut buf = [0u8; MAX_BLOCK_SIZE];
        // Try boot block at sector 0 and sector 1
        let mut boot_sector: u32 = 0;
        while boot_sector <= MAX_BOOT_BLOCK
            invariant
                boot_sector <= 2,
            decreases 2 - boot_sector,
        {
            match probe_boot_sector(device, boot_sector, &mut buf) {
                Some((fs_flags, root_block_num)) => {
                    // Try each block size
                    let mut log_blocksize: u8 = 0;
                    while log_blocksize <= MAX_LOG_BLOCK_SIZE
                        invariant
                            log_blocksize <= 5,
                            boot_sector <= 1,
                        decreases 5 - log_blocksize,
                    {
                        match probe_root_at(device, root_block_num, log_blocksize, &mut buf) {
                            Some(info) => {
                                return Ok(
                                    ProbeResult {
                                        fs_type: FsType::Ffs,
                                        fs_flags,
                                        root_block: root_block_num,
                                        log_blocksize,
                                        block_size: block_size_of(log_blocksize),
                                        hash_table_size: info.hash_table_size,
                                        boot_sector,
                                        disk_name: info.disk_name,
                                        disk_name_len: info.disk_name_len,
                                        creation_date: info.creation_date,
                                        last_modified: info.last_modified,
                                    },
                                );
                            },
                            None => (),
                        }
                        log_blocksize += 1;
                    }
                },
                None => (),
            }
            boot_sector += 1;
        }
        Err(AffsError::InvalidDosType)
    }

    /// Read one filesystem block into the front of `buf`.
    fn read_block_into(&self, block: u32, buf: &mut [u8; MAX_BLOCK_SIZE]) -> (r: Result<
        (),
        AffsError,
    >)
        requires
            self.wf(),
        ensures
            r matches Err(e) ==> e == AffsError::BlockReadError,
    {
        let sectors_per_block = (self.block_size / BLOCK_SIZE) as u64;
        proof {
            lemma_sector_product_bound(block as u64, sectors_per_block as u64);
        }
        let start_sector = (block as u64) * sectors_per_block;
        read_sectors(self.device, start_sector, buf, self.block_size)
    }

    /// Get the filesystem type (always FFS for probed partitions).
    pub fn fs_type(&self) -> (r: FsType)
        ensures
            r == self.spec_fs_type(),
    {
        self.fs_type
    }

    /// The filesystem type.
    pub closed spec fn spec_fs_type(&self) -> FsType {
        self.fs_type
    }

    /// Get filesystem flags.
    pub fn fs_flags(&self) -> (r: FsFlags)
        ensures
            r == self.spec_fs_flags(),
    {
        self.fs_flags
    }

    /// Get the root block number.
    pub fn root_block(&self) -> (r: u32)
        ensures
            r == self.spec_root_block(),
    {
        self.root_block
    }

    /// Get the total number of blocks.
    pub fn total_blocks(&self) -> (r: u32)
        ensures
            r == self.spec_total_blocks(),
    {
        self.total_blocks
    }

    /// Get the block size in bytes.
    pub fn block_size(&self) -> (r: usize)
        requires
            self.wf(),
        ensures
            r == self.spec_block_size(),
            spec_geometry_ok(self.spec_log_blocksize(), r),
    {
        self.block_size
    }

    /// Get the log2 block size (relative to 512).
    pub fn log_blocksize(&self) -> (r: u8)
        ensures
            r == self.spec_log_blocksize(),
    {
        self.log_blocksize
    }

    /// Get the disk name (volume label) as bytes.
    pub fn disk_name(&self) -> (r: &[u8])
        requires
            self.wf(),
        ensures
            r@ == self.spec_disk_name(),
    {
        &self.disk_name[0..self.disk_name_len as usize]
    }

    /// Get the disk name as a string (if valid UTF-8).
    pub fn disk_name_str(&self) -> (r: Option<&str>)
        requires
            self.wf(),
        ensures
            r is Some <==> utf8_decode(self.spec_disk_name()) is Some,
            r matches Some(s) ==> utf8_decode(self.spec_disk_name()) == Some(s@),
    {
        from_utf8(self.disk_name())
    }

    /// Get the volume label (alias for disk_name).
    pub fn label(&self) -> (r: &[u8])
        requires
            self.wf(),
        ensures
            r@ == self.spec_disk_name(),
    {
        self.disk_name()
    }

    /// Get the volume label as string (alias for disk_name_str).
    pub fn label_str(&self) -> (r: Option<&str>)
        requires
            self.wf(),
        ensures
            r is Some <==> utf8_decode(self.spec_disk_name()) is Some,
            r matches Some(s) ==> utf8_decode(self.spec_disk_name()) == Some(s@),
    {
        self.disk_name_str()
    }

    /// Get the volume creation date.
    pub fn creation_date(&self) -> (r: AmigaDate)
        ensures
            r == self.spec_creation_date(),
    {
        self.creation_date
    }

    /// Get the volume last modification date.
    pub fn last_modified(&self) -> (r: AmigaDate)
        ensures
            r == self.spec_last_modified(),
    {
        self.last_modified
    }

    /// Get the volume modification time as a Unix timestamp:
    /// `days * 86400 + mins * 60 + ticks / 50` plus the 1978 epoch offset.
    pub fn mtime(&self) -> (r: i64)
        ensures
            r == self.spec_last_modified().days as int * 86400 + self.spec_last_modified().mins
                as int * 60 + spec_div50_trunc(self.spec_last_modified().ticks as int)
                + 252460800,
    {
        self.last_modified.to_unix_timestamp()
    }

    /// Get the hash table size.
    pub fn hash_table_size(&self) -> (r: u32)
        ensures
            r == self.spec_hash_table_size(),
    {
        self.hash_table_size
    }

    /// Check if international name folding applies (international or
    /// directory-cache mode).
    pub fn is_intl(&self) -> (r: bool)
        ensures
            r == (self.spec_fs_flags().intl || self.spec_fs_flags().dircache),
    {
        self.fs_flags.intl || self.fs_flags.dircache
    }

    /// Read a symlink target into `out` as UTF-8.
    ///
    /// The block must carry the soft-link secondary type at its end; the
    /// stored Latin-1 target is transcoded, a leading `:` becoming `/`.
    pub fn read_symlink(&self, block: u32, out: &mut [u8]) -> (r: Result<usize, AffsError>)
        requires
            self.wf(),
        ensures
            final(out)@.len() == old(out)@.len(),
            r matches Ok(n) ==> n <= final(out)@.len() && forall|i: int|
                n <= i < final(out)@.len() ==> final(out)@[i] == old(out)@[i],
    {
        let mut buf = [0u8; MAX_BLOCK_SIZE];
        match self.read_block_into(block, &mut buf) {
            Ok(()) => (),
            Err(e) => {
                return Err(e);
            },
        }
        // Verify this is a symlink
        let sec_type = read_i32_be_slice(buf.as_slice(), self.block_size - 4);
        if sec_type != ST_LSOFT {
            return Err(AffsError::NotASymlink);
        }
        Ok(read_symlink_target_with_block_size(&buf[0..self.block_size], self.block_size, out))
    }

    /// Copy the hash table out of a directory block held in `buf`.
    fn read_hash_table(&self, buf: &[u8; MAX_BLOCK_SIZE]) -> (r: ([u32; MAX_VAR_HASH_TABLE], usize))
        requires
            self.wf(),
        ensures
            r.1 <= MAX_VAR_HASH_TABLE,
            r.1 == (if self.spec_hash_table_size() > MAX_VAR_HASH_TABLE {
                MAX_VAR_HASH_TABLE as int
            } else {
                self.spec_hash_table_size() as int
            }),
            forall|i: int| 0 <= i < r.1 ==> #[trigger] r.0@[i] == be32_at(buf@, 24 + 4 * i),
            forall|i: int| r.1 <= i < MAX_VAR_HASH_TABLE ==> #[trigger] r.0@[i] == 0,
    {
        let mut hash_table = [0u32; MAX_VAR_HASH_TABLE];
        let ht_size = self.hash_table_size as usize;
        let limit = if ht_size > MAX_VAR_HASH_TABLE {
            MAX_VAR_HASH_TABLE
        } else {
            ht_size
        };
        let mut i: usize = 0;
        while i < limit
            invariant
                i <= limit,
                limit <= MAX_VAR_HASH_TABLE,
                forall|j: int| 0 <= j < i ==> #[trigger] hash_table@[j] == be32_at(buf@, 24 + 4 * j),
                forall|j: int| i <= j < MAX_VAR_HASH_TABLE ==> #[trigger] hash_table@[j] == 0,
            decreases limit - i,
        {
            hash_table[i] = read_u32_be_slice(buf.as_slice(), SYMLINK_OFFSET + i * 4);
            i += 1;
        }
        (hash_table, limit)
    }

    /// Iterate over entries in the root directory.
    pub fn read_root_dir(&self) -> (r: Result<VarDirIter<'a, D>, AffsError>)
        requires
            self.wf(),
        ensures
            r matches Ok(it) ==> it.wf(),
            r matches Err(e) ==> e == AffsError::BlockReadError,
    {
        let mut buf = [0u8; MAX_BLOCK_SIZE];
        match self.read_block_into(self.root_block, &mut buf) {
            Ok(()) => (),
            Err(e) => {
                return Err(e);
            },
        }
        let (hash_table, ht_size) = self.read_hash_table(&buf);
        Ok(
            VarDirIter::new(
                self.device,
                hash_table,
                ht_size,
                self.is_intl(),
                self.log_blocksize,
                self.block_size,
            ),
        )
    }

    /// Iterate over entries in a directory given by block number.
    pub fn read_dir(&self, block: u32) -> (r: Result<VarDirIter<'a, D>, AffsError>)
        requires
            self.wf(),
        ensures
            r matches Ok(it) ==> it.wf(),
            r matches Err(e) ==> e == AffsError::BlockReadError || e == AffsError::InvalidBlockType
                || e == AffsError::NotADirectory,
    {
        if block == self.root_block {
            return self.read_root_dir();
        }
        let mut buf = [0u8; MAX_BLOCK_SIZE];
        match self.read_block_into(block, &mut buf) {
            Ok(()) => (),
            Err(e) => {
                return Err(e);
            },
        }
        // Validate block type
        let block_type = read_i32_be_slice(buf.as_slice(), 0);
        if block_type != T_HEADER {
            return Err(AffsError::InvalidBlockType);
        }
        // Validate this is a directory
        let sec_type = read_i32_be_slice(buf.as_slice(), self.block_size - 4);
        if sec_type != ST_DIR && sec_type != ST_LDIR {
            return Err(AffsError::NotADirectory);
        }
        let (hash_table, ht_size) = self.read_hash_table(&buf);
        Ok(
            VarDirIter::new(
                self.device,
                hash_table,
                ht_size,
                self.is_intl(),
                self.log_blocksize,
                self.block_size,
            ),
        )
    }
}

/// Directory entry for a variable block size filesystem.
#[derive(Debug, Clone)]
pub struct VarDirEntry {
    /// Entry name.
    pub name: [u8; MAX_NAME_LEN],
    /// Name length.
    pub name_len: u8,
    /// Entry type.
    pub entry_type: EntryType,
    /// Block number.
    pub block: u32,
    /// Parent block.
    pub parent: u32,
    /// File size.
    pub size: u32,
    /// Modification date.
    pub date: AmigaDate,
}

impl VarDirEntry {
    /// The entry's name bytes.
    pub open spec fn spec_name(&self) -> Seq<u8> {
        self.name@.subrange(0, self.name_len as int)
    }

    /// Get entry name as bytes.
    pub fn name(&self) -> (r: &[u8])
        requires
            self.name_len <= MAX_NAME_LEN,
        ensures
            r@ == self.spec_name(),
    {
        &self.name[0..self.name_len as usize]
    }

    /// Get entry name as string (if valid UTF-8).
    pub fn name_str(&self) -> (r: Option<&str>)
        requires
            self.name_len <= MAX_NAME_LEN,
        ensures
            r is Some <==> utf8_decode(self.spec_name()) is Some,
            r matches Some(s) ==> utf8_decode(self.spec_name()) == Some(s@),
    {
        from_utf8(self.name())
    }

    /// Check if this is a directory.
    pub fn is_dir(&self) -> (r: bool)
        ensures
            r == (self.entry_type == EntryType::Root || self.entry_type == EntryType::Dir
                || self.entry_type == EntryType::HardLinkDir),
    {
        self.entry_type.is_dir()
    }

    /// Check if this is a file.
    pub fn is_file(&self) -> (r: bool)
        ensures
            r == (self.entry_type == EntryType::File || self.entry_type
                == EntryType::HardLinkFile),
    {
        self.entry_type.is_file()
    }

    /// Check if this is a symlink.
    pub fn is_symlink(&self) -> (r: bool)
        ensures
            r == (self.entry_type == EntryType::SoftLink),
    {
        match self.entry_type {
            EntryType::SoftLink => true,
            _ => false,
        }
    }
}

/// Directory iterator for a variable block size filesystem.
pub struct VarDirIter<'a, D: SectorDevice> {
    device: &'a D,
    hash_table: [u32; MAX_VAR_HASH_TABLE],
    hash_table_size: usize,
    hash_index: usize,
    current_chain: u32,
    intl: bool,
    log_blocksize: u8,
    block_size: usize,
    buf: [u8; MAX_BLOCK_SIZE],
}

impl<'a, D: SectorDevice> VarDirIter<'a, D> {
    /// The bucket cursor stays within the (clamped) hash table and the
    /// geometry is one of the supported ones.
    pub closed spec fn wf(&self) -> bool {
        self.hash_table_size <= MAX_VAR_HASH_TABLE && self.hash_index <= self.hash_table_size
            && spec_geometry_ok(self.log_blocksize, self.block_size)
    }

    fn new(
        device: &'a D,
        hash_table: [u32; MAX_VAR_HASH_TABLE],
        hash_table_size: usize,
        intl: bool,
        log_blocksize: u8,
        block_size: usize,
    ) -> (r: Self)
        requires
            hash_table_size <= MAX_VAR_HASH_TABLE,
            spec_geometry_ok(log_blocksize, block_size),
        ensures
            r.wf(),
    {
        VarDirIter {
            device,
            hash_table,
            hash_table_size,
            hash_index: 0,
            current_chain: 0,
            intl,
            log_blocksize,
            block_size,
            buf: [0u8; MAX_BLOCK_SIZE],
        }
    }

    /// Read one filesystem block into the internal buffer.
    fn read_block_into(&mut self, block: u32) -> (r: Result<(), AffsError>)
        requires
            old(self).wf(),
        ensures
            final(self).wf(),
            final(self).spec_hash_table() == old(self).spec_hash_table(),
            final(self).spec_hash_table_size() == old(self).spec_hash_table_size(),
            final(self).spec_hash_index() == old(self).spec_hash_index(),
            final(self).spec_current_chain() == old(self).spec_current_chain(),
            final(self).spec_block_size() == old(self).spec_block_size(),
            r matches Err(e) ==> e == AffsError::BlockReadError,
    {
        let device = self.device;
        let sectors_per_block = (self.block_size / BLOCK_SIZE) as u64;
        proof {
            lemma_sector_product_bound(block as u64, sectors_per_block as u64);
        }
        let start_sector = (block as u64) * sectors_per_block;
        read_sectors(device, start_sector, &mut self.buf, self.block_size)
    }

    /// The (clamped) hash table the iterator walks.
    pub closed spec fn spec_hash_table(&self) -> Seq<u32> {
        self.hash_table@
    }

    /// How many hash-table slots the iterator scans.
    pub closed spec fn spec_hash_table_size(&self) -> usize {
        self.hash_table_size
    }

    /// The bucket the scan will look at next.
    pub closed spec fn spec_hash_index(&self) -> usize {
        self.hash_index
    }

    /// The block number of the next chain entry, zero when not mid-chain.
    pub closed spec fn spec_current_chain(&self) -> u32 {
        self.current_chain
    }

    /// The probed block size the iterator decodes with.
    pub closed spec fn spec_block_size(&self) -> usize {
        self.block_size
    }

    /// The bytes of the currently loaded block buffer.
    pub closed spec fn spec_buf(&self) -> Seq<u8> {
        self.buf@
    }

    /// Whether iteration has ended: no chain in progress and no bucket left
    /// to scan. A finished iterator yields nothing and touches no device.
    pub open spec fn spec_done(&self) -> bool {
        self.spec_current_chain() == 0 && self.spec_hash_index() >= self.spec_hash_table_size()
    }

    /// Mark the iteration as finished: nothing more will be yielded.
    fn finish(&mut self)
        requires
            old(self).wf(),
        ensures
            final(self).spec_done(),
            final(self).wf(),
            final(self).spec_hash_table() == old(self).spec_hash_table(),
            final(self).spec_hash_table_size() == old(self).spec_hash_table_size(),
            final(self).spec_block_size() == old(self).spec_block_size(),
            old(self).spec_hash_index() <= final(self).spec_hash_index(),
    {
        self.current_chain = 0;
        self.hash_index = self.hash_table_size;
    }

    /// Decode the entry held in the internal buffer, using offsets anchored
    /// to the end of the block; yields nothing when the secondary type is
    /// not a recognized entry type.
    fn parse_entry(&self, block: u32) -> (r: Option<VarDirEntry>)
        requires
            self.wf(),
        ensures
            r is Some <==> spec_entry_type(
                be32_signed_at(self.spec_buf(), self.spec_block_size() - 4),
            ) is Some,
            r matches Some(e) ==> {
                let bs = self.spec_block_size() as int;
                let b = self.spec_buf();
                &&& e.name_len <= MAX_NAME_LEN
                &&& e.block == block
                &&& Some(e.entry_type) == spec_entry_type(be32_signed_at(b, bs - 4))
                &&& e.size == be32_at(b, bs - FILE_LOCATION + 12)
                &&& e.parent == be32_at(b, bs - 12)
                &&& e.date.days as int == be32_signed_at(
                    b,
                    bs - FILE_LOCATION + 0x1A4 - (BLOCK_SIZE - FILE_LOCATION),
                )
                &&& e.date.mins as int == be32_signed_at(
                    b,
                    bs - FILE_LOCATION + 0x1A8 - (BLOCK_SIZE - FILE_LOCATION),
                )
                &&& e.date.ticks as int == be32_signed_at(
                    b,
                    bs - FILE_LOCATION + 0x1AC - (BLOCK_SIZE - FILE_LOCATION),
                )
                &&& e.name_len == (if b[bs - FILE_LOCATION + 108] > 30 {
                    30u8
                } else {
                    b[bs - FILE_LOCATION + 108]
                })
                &&& forall|i: int|
                    0 <= i < e.name_len ==> #[trigger] e.name@[i] == b[bs - FILE_LOCATION + 109
                        + i]
                &&& forall|i: int| e.name_len <= i < MAX_NAME_LEN ==> #[trigger] e.name@[i] == 0
            },
    {
        let s = self.buf.as_slice();
        // Entry type is at the end of the block
        let sec_type = read_i32_be_slice(s, self.block_size - 4);
        let entry_type = match EntryType::from_sec_type(sec_type) {
            Some(t) => t,
            None => {
                return None;
            },
        };
        // Name, anchored to the end of the block
        let name_offset = self.block_size - FILE_LOCATION + 108;
        let nl = self.buf[name_offset];
        let name_len: u8 = if nl > 30 {
            30
        } else {
            nl
        };
        let name: [u8; MAX_NAME_LEN] = copy_prefix(
            &self.buf[name_offset + 1..name_offset + 1 + MAX_NAME_LEN],
            name_len as usize,
        );
        // Size, anchored to the end of the block
        let size_offset = self.block_size - FILE_LOCATION + 12;
        let size = read_u32_be_slice(s, size_offset);
        // Parent pointer near the end of the block
        let parent = read_u32_be_slice(s, self.block_size - 12);
        // Date, anchored to the end of the block
        let date_offset = self.block_size - FILE_LOCATION + 0x1A4 - (BLOCK_SIZE - FILE_LOCATION);
        let date = AmigaDate::new(
            read_i32_be_slice(s, date_offset),
            read_i32_be_slice(s, date_offset + 4),
            read_i32_be_slice(s, date_offset + 8),
        );
        Some(VarDirEntry { name, name_len, entry_type, block, parent, size, date })
    }

    /// Produce the next directory entry.
    ///
    /// Works as the fixed-size iterator does: chains are followed to
    /// exhaustion, entries with unrecognized secondary types are skipped,
    /// a failed block read yields exactly one error result and ends the
    /// iteration, and iteration ends when no non-empty bucket is left; a
    /// finished iterator keeps yielding nothing without touching the
    /// device.
    #[verifier::loop_isolation(false)]
    pub fn next(&mut self) -> (r: Option<Result<VarDirEntry, AffsError>>)
        requires
            old(self).wf(),
        ensures
            final(self).wf(),
            final(self).spec_hash_table() == old(self).spec_hash_table(),
            final(self).spec_hash_table_size() == old(self).spec_hash_table_size(),
            r matches Some(res) ==> (res matches Ok(e) ==> e.name_len <= MAX_NAME_LEN),
            // When no chain is in progress and every remaining bucket slot
            // is empty, iteration ends here (and no block is read).
            old(self).spec_current_chain() == 0 && (forall|i: int|
                old(self).spec_hash_index() <= i < old(self).spec_hash_table_size() ==> old(self).spec_hash_table()[i] == 0) ==> r == Option::<
                Result<VarDirEntry, AffsError>,
            >::None,
            // A finished iterator stays finished, untouched.
            old(self).spec_done() ==> *final(self) == *old(self),
            r is None ==> final(self).spec_done(),
            // An error is yielded at most once: it finishes the iteration.
            r matches Some(res) ==> (res is Err ==> final(self).spec_done()),
    {
        let ghost empty_rest = old(self).spec_current_chain() == 0 && (forall|i: int|
            old(self).spec_hash_index() <= i < old(self).spec_hash_table_size() ==> old(self).spec_hash_table()[i] == 0);
        // A chain longer than the whole block-number space must be cyclic:
        // give up on it rather than follow it forever.
        let mut steps: u64 = 0x100000000;
        loop
            invariant
                self.wf(),
                self.spec_hash_table() == old(self).spec_hash_table(),
                self.spec_hash_table_size() == old(self).spec_hash_table_size(),
                old(self).spec_hash_index() <= self.spec_hash_index(),
                empty_rest ==> self.spec_current_chain() == 0,
                empty_rest ==> steps == 0x100000000,
                old(self).spec_done() ==> *self == *old(self),
            decreases steps,
        {
            if steps == 0 {
                self.finish();
                return Some(Err(AffsError::InvalidDataSequence));
            }
            steps = steps - 1;
            // If we're in a hash chain, continue it
            if self.current_chain != 0 {
                let block = self.current_chain;
                match self.read_block_into(block) {
                    Ok(()) => (),
                    Err(e) => {
                        self.finish();
                        return Some(Err(e));
                    },
                }
                // Next in chain, anchored to the end of the block
                self.current_chain = read_u32_be_slice(
                    self.buf.as_slice(),
                    self.block_size - 16,
                );
                match self.parse_entry(block) {
                    Some(entry) => {
                        return Some(Ok(entry));
                    },
                    None => {
                        continue ;
                    },
                }
            }
            // Find next non-empty hash slot
            while self.hash_index < self.hash_table_size && self.current_chain == 0
                invariant
                    self.wf(),
                    self.spec_hash_table() == old(self).spec_hash_table(),
                    self.spec_hash_table_size() == old(self).spec_hash_table_size(),
                    old(self).spec_hash_index() <= self.spec_hash_index(),
                    empty_rest ==> self.spec_current_chain() == 0,
                    old(self).spec_done() ==> *self == *old(self),
                decreases self.hash_table_size - self.hash_index,
            {
                let ghost idx = self.spec_hash_index();
                proof {
                    if empty_rest {
                        assert(old(self).spec_hash_table()[idx as int] == 0);
                    }
                }
                let block = self.hash_table[self.hash_index];
                self.hash_index += 1;
                if block != 0 {
                    self.current_chain = block;
                }
            }
            if self.current_chain == 0 {
                return None;
            }
        }
    }
}

} // verus!
