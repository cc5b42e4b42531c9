//! A verified library for reading Amiga Fast File System (AFFS) disk images.
//!
//! The library decodes the raw, fixed-layout block format of AFFS/OFS media:
//! boot, root, entry, extension and data blocks, each validated by its own
//! checksum; the case-insensitive hashed directory structure; sequential file
//! reading across data and extension blocks; and the block-size probing needed
//! for hard-disk partitions.

mod block;
mod checksum;
mod constants;
mod date;
mod dir;
mod error;
mod file;
mod reader;
mod symlink;
mod utf8;
mod varblock;
mod types;

pub use block::{
    boot_parse_ok, boot_sig_ok, entry_parse_ok, file_ext_parse_ok, hash_name, intl_to_upper,
    lemma_case_fold_facts, lemma_names_equal_equivalence, names_equal, ofs_data_parse_ok,
    root_parse_ok, spec_ascii_upper, spec_hash_acc, spec_hash_name, spec_hash_step,
    spec_intl_upper, spec_names_equal, spec_upper, BootBlock, EntryBlock, FileExtBlock,
    OfsDataBlock, RootBlock,
};
pub use checksum::{
    be16_at, be32_at, be32_signed_at, bitmap_sum, bitmap_word_sum, boot_add, boot_sum,
    boot_word_sum, lemma_boot_sum_round_trip, lemma_normal_sum_detects_change,
    lemma_normal_sum_round_trip, normal_sum,
    normal_sum_slice, normal_word_sum, read_i32_be, read_i32_be_slice, word_sum_int,
    read_u16_be, read_u32_be, read_u32_be_slice, spec_bitmap_sum, spec_boot_sum, spec_normal_sum,
    wadd32, wneg32, wsub32,
};
pub use constants::{
    ACC_ARCHIVE, ACC_DELETE, ACC_EXECUTE, ACC_HOLD, ACC_PURE, ACC_READ, ACC_SCRIPT, ACC_WRITE,
    AMIGA_EPOCH_OFFSET, BLOCK_SIZE, BM_MAP_SIZE, BM_PAGES_EXT_SIZE, BM_PAGES_ROOT_SIZE, BM_VALID,
    BOOT_BLOCK_SIZE, CYLINDERS, DOSFS_DIRCACHE, DOSFS_FFS, DOSFS_INTL, DOSFS_OFS,
    FFS_DATA_SIZE, FILE_LOCATION, FLOPPY_DD_SECTORS, FLOPPY_HD_SECTORS, HASH_TABLE_SIZE, HEADS,
    MAX_BOOT_BLOCK, MAX_COMMENT_LEN, MAX_DATABLK, MAX_LOG_BLOCK_SIZE, MAX_NAME_LEN,
    OFS_DATA_SIZE, SECTORS_PER_TRACK_DD, SECTORS_PER_TRACK_HD, SYMLINK_OFFSET, T_DATA, T_DIRC,
    T_HEADER, T_LIST, ST_DIR, ST_FILE, ST_LDIR, ST_LFILE, ST_LSOFT, ST_ROOT,
};
pub use date::{
    is_leap_year, spec_days_before_month, spec_days_before_year, spec_days_in_year,
    spec_div50_trunc, spec_is_leap_year, spec_month_len, AmigaDate, DateTime,
};
pub use dir::{DirEntry, DirIter};
pub use error::AffsError;
pub use utf8::{from_utf8, utf8_decode};
pub use varblock::{
    spec_geometry_ok, AffsReaderVar, VarDirEntry, VarDirIter, MAX_BLOCK_SIZE, MAX_VAR_HASH_TABLE,
};
pub use file::{spec_data_block_size, FileReader};
pub use reader::AffsReader;
pub use symlink::{
    latin1_to_utf8_symlink, lemma_transcode_len, max_utf8_len, read_symlink_target,
    read_symlink_target_with_block_size, spec_colon_adjusted, spec_cstr_len, spec_latin1_to_utf8,
    spec_latin1_utf8, spec_symlink_region, spec_symlink_target, spec_symlink_transcode,
    MAX_SYMLINK_LEN,
};
pub use types::{
    spec_entry_type, Access, BlockDevice, EntryType, FsFlags, FsType, SectorDevice,
};
