//! Unit tests for the checksum, date, block, directory, file, symlink and
//! variable-block-size components.

use affs_read::{
    bitmap_sum, boot_sum, from_utf8, hash_name, intl_to_upper, is_leap_year,
    latin1_to_utf8_symlink,
    names_equal, normal_sum_slice, read_i32_be, read_symlink_target, read_u16_be, read_u32_be,
    Access, AffsError, AffsReader, AffsReaderVar, AmigaDate, BlockDevice, DirEntry, EntryType,
    FileReader, FsType, SectorDevice, BLOCK_SIZE, DOSFS_FFS, FILE_LOCATION, HASH_TABLE_SIZE,
    MAX_COMMENT_LEN, MAX_NAME_LEN, ST_FILE, ST_ROOT, SYMLINK_OFFSET, T_HEADER,
};

#[test]
fn test_read_u32_be() {
    let mut buf = [0u8; BLOCK_SIZE];
    buf[0] = 0x12;
    buf[1] = 0x34;
    buf[2] = 0x56;
    buf[3] = 0x78;
    assert_eq!(read_u32_be(&buf, 0), 0x12345678);
}

#[test]
fn test_read_i32_be() {
    let mut buf = [0u8; BLOCK_SIZE];
    buf[0] = 0xFF;
    buf[1] = 0xFF;
    buf[2] = 0xFF;
    buf[3] = 0xFD;
    assert_eq!(read_i32_be(&buf, 0), -3);
}

#[test]
fn test_epoch() {
    let date = AmigaDate::new(0, 0, 0);
    let dt = date.to_date_time();
    assert_eq!(dt.year, 1978);
    assert_eq!(dt.month, 1);
    assert_eq!(dt.day, 1);
    assert_eq!(dt.hour, 0);
    assert_eq!(dt.minute, 0);
    assert_eq!(dt.second, 0);
}

#[test]
fn test_known_date() {
    // 1997-02-18 is day 6988
    let date = AmigaDate::new(6988, 0, 0);
    let dt = date.to_date_time();
    assert_eq!(dt.year, 1997);
    assert_eq!(dt.month, 2);
    assert_eq!(dt.day, 18);
}

#[test]
fn test_time() {
    let date = AmigaDate::new(0, 754, 150); // 12:34:03
    let dt = date.to_date_time();
    assert_eq!(dt.hour, 12);
    assert_eq!(dt.minute, 34);
    assert_eq!(dt.second, 3);
}

#[test]
fn test_leap_year() {
    assert!(is_leap_year(2000));
    assert!(!is_leap_year(1900));
    assert!(is_leap_year(1984));
    assert!(!is_leap_year(1983));
}

#[test]
fn test_hash_name() {
    // These are known hash values from the AFFS spec
    assert!(hash_name(b"test", false) < HASH_TABLE_SIZE);
    assert!(hash_name(b"", false) == 0);
}

#[test]
fn test_intl_to_upper() {
    assert_eq!(intl_to_upper(b'a'), b'A');
    assert_eq!(intl_to_upper(b'z'), b'Z');
    assert_eq!(intl_to_upper(b'A'), b'A');
    assert_eq!(intl_to_upper(224), 192); // a-grave -> A-grave
}

#[test]
fn test_names_equal() {
    assert!(names_equal(b"Test", b"test", false));
    assert!(names_equal(b"TEST", b"test", false));
    assert!(!names_equal(b"Test", b"test2", false));
}

#[test]
fn test_dir_entry_name() {
    let mut entry = DirEntry {
        name: [0u8; MAX_NAME_LEN],
        name_len: 4,
        entry_type: EntryType::File,
        block: 100,
        parent: 880,
        size: 1024,
        access: Access::new(0),
        date: AmigaDate::default(),
        real_entry: 0,
        comment: [0u8; MAX_COMMENT_LEN],
        comment_len: 0,
    };
    entry.name[..4].copy_from_slice(b"test");

    assert_eq!(entry.name(), b"test");
    assert_eq!(entry.name_str(), Some("test"));
}

struct DummyDevice;

impl BlockDevice for DummyDevice {
    fn read_block(&self, _block: u32, _buf: &mut [u8; 512]) -> Result<(), ()> {
        Err(())
    }
}

#[test]
fn test_file_reader_error_on_bad_device() {
    let device = DummyDevice;
    let result = FileReader::new(&device, FsType::Ffs, 100);
    assert!(result.is_err());
}

#[test]
fn test_reader_error_on_bad_device() {
    let device = DummyDevice;
    let result = AffsReader::new(&device);
    assert!(result.is_err());
}

#[test]
fn test_latin1_to_utf8_ascii() {
    let input = b"hello";
    let mut out = [0u8; 32];
    let len = latin1_to_utf8_symlink(input, &mut out);
    assert_eq!(len, 5);
    assert_eq!(&out[..len], b"hello");
}

#[test]
fn test_latin1_to_utf8_high_bytes() {
    // Latin1: 0xE9 = 'e' with accent (e-acute)
    // UTF-8: 0xC3 0xA9
    let input = [0xE9];
    let mut out = [0u8; 32];
    let len = latin1_to_utf8_symlink(&input, &mut out);
    assert_eq!(len, 2);
    assert_eq!(&out[..len], &[0xC3, 0xA9]);
}

#[test]
fn test_colon_replacement() {
    let input = b":path/to/file";
    let mut out = [0u8; 32];
    let len = latin1_to_utf8_symlink(input, &mut out);
    assert_eq!(len, 13);
    assert_eq!(&out[..len], b"/path/to/file");
}

#[test]
fn test_colon_not_at_start() {
    let input = b"path:to/file";
    let mut out = [0u8; 32];
    let len = latin1_to_utf8_symlink(input, &mut out);
    assert_eq!(len, 12);
    assert_eq!(&out[..len], b"path:to/file");
}

#[test]
fn test_read_symlink_target() {
    let mut buf = [0u8; BLOCK_SIZE];
    // Put a symlink target at offset 24
    buf[SYMLINK_OFFSET..SYMLINK_OFFSET + 5].copy_from_slice(b"test\0");

    let mut out = [0u8; 32];
    let len = read_symlink_target(&buf, &mut out);
    assert_eq!(len, 4);
    assert_eq!(&out[..len], b"test");
}

#[test]
fn test_read_symlink_with_colon() {
    let mut buf = [0u8; BLOCK_SIZE];
    buf[SYMLINK_OFFSET..SYMLINK_OFFSET + 6].copy_from_slice(b":boot\0");

    let mut out = [0u8; 32];
    let len = read_symlink_target(&buf, &mut out);
    assert_eq!(len, 5);
    assert_eq!(&out[..len], b"/boot");
}

struct DummySectorDevice;

impl SectorDevice for DummySectorDevice {
    fn read_sector(&self, _sector: u64, _buf: &mut [u8; 512]) -> Result<(), ()> {
        Err(())
    }
}

#[test]
fn test_var_reader_error_on_bad_device() {
    let device = DummySectorDevice;
    let result = AffsReaderVar::new(&device, 1760);
    assert!(result.is_err());
}

/// Good device that returns a valid boot block and root block and one
/// directory entry block so we can exercise probing and iteration.
struct DummyGoodDevice;

impl DummyGoodDevice {
    fn write_u32_be(buf: &mut [u8], offset: usize, val: u32) {
        let bytes = val.to_be_bytes();
        buf[offset..offset + 4].copy_from_slice(&bytes);
    }

    fn write_i32_be(buf: &mut [u8], offset: usize, val: i32) {
        let bytes = val.to_be_bytes();
        buf[offset..offset + 4].copy_from_slice(&bytes);
    }
}

impl SectorDevice for DummyGoodDevice {
    fn read_sector(&self, sector: u64, buf: &mut [u8; 512]) -> Result<(), ()> {
        // Sector mapping:
        // 0..=1 -> boot block (1024 bytes split)
        // 2 -> root block (512 bytes)
        // 5 -> directory entry block (512 bytes)
        for b in buf.iter_mut() {
            *b = 0;
        }

        match sector {
            0 => {
                // First half of boot block
                let mut boot = [0u8; 1024];
                boot.fill(0);
                boot[0..3].copy_from_slice(b"DOS");
                boot[3] = DOSFS_FFS; // FFS flag
                // buf[12] = 0 => skip boot checksum validation
                DummyGoodDevice::write_u32_be(&mut boot, 8, 2); // root block = 2
                buf.copy_from_slice(&boot[0..512]);
                Ok(())
            }
            1 => {
                // Second half of boot block
                let mut boot = [0u8; 1024];
                boot.fill(0);
                boot[0..3].copy_from_slice(b"DOS");
                boot[3] = DOSFS_FFS;
                DummyGoodDevice::write_u32_be(&mut boot, 8, 2);
                buf.copy_from_slice(&boot[512..1024]);
                Ok(())
            }
            2 => {
                // Root block (512 bytes)
                let mut rb = [0u8; 512];
                rb.fill(0);
                // Block type header
                DummyGoodDevice::write_i32_be(&mut rb, 0, T_HEADER);
                // hash table size at offset 12
                DummyGoodDevice::write_u32_be(&mut rb, 12, 4);
                // We'll set checksum at offset 20 later
                // Secondary type at end
                DummyGoodDevice::write_i32_be(&mut rb, 512 - 4, ST_ROOT);
                // Set hash table first slot to point to block 5 at SYMLINK_OFFSET
                DummyGoodDevice::write_u32_be(&mut rb, SYMLINK_OFFSET, 5);
                // Name offset and name
                let name_offset = 512 - FILE_LOCATION + 108;
                rb[name_offset] = 4; // length
                rb[name_offset + 1..name_offset + 1 + 4].copy_from_slice(b"test");
                // Date fields (three i32) - leave zero
                // Calculate checksum excluding offset 20
                let checksum = normal_sum_slice(&rb[..512], 20);
                DummyGoodDevice::write_u32_be(&mut rb, 20, checksum);
                buf.copy_from_slice(&rb);
                Ok(())
            }
            5 => {
                // Directory entry block for block number 5
                let mut eb = [0u8; 512];
                eb.fill(0);
                DummyGoodDevice::write_i32_be(&mut eb, 0, T_HEADER);
                // Secondary type -> file
                DummyGoodDevice::write_i32_be(&mut eb, 512 - 4, ST_FILE);
                // Name
                let name_offset = 512 - FILE_LOCATION + 108;
                eb[name_offset] = 4;
                eb[name_offset + 1..name_offset + 1 + 4].copy_from_slice(b"file");
                // Size at size_offset = block_size - FILE_LOCATION + 12
                let size_offset = 512 - FILE_LOCATION + 12;
                DummyGoodDevice::write_u32_be(&mut eb, size_offset, 123);
                // Parent at block_size - 12
                DummyGoodDevice::write_u32_be(&mut eb, 512 - 12, 2);
                buf.copy_from_slice(&eb);
                Ok(())
            }
            _ => Err(()),
        }
    }
}

#[test]
fn test_var_probe_and_dir_iter() {
    let device = DummyGoodDevice;
    // total sectors arbitrary but >= 6
    let reader = AffsReaderVar::new(&device, 100).expect("probe should succeed");
    assert_eq!(reader.block_size(), 512);
    assert_eq!(reader.root_block(), 2);
    assert_eq!(reader.disk_name_str(), Some("test"));

    // Read root dir and iterate
    let mut iter = reader.read_root_dir().expect("read_root_dir");
    let first = iter.next().expect("entry").expect("ok entry");
    assert_eq!(first.name_str(), Some("file"));
    assert_eq!(first.size, 123);
    assert_eq!(first.block, 5);
}

#[test]
fn test_error_message_nonempty() {
    assert!(!AffsError::EndOfFile.message().is_empty());
    assert!(!AffsError::SymlinkTooLong.message().is_empty());
    assert!(!AffsError::InvalidState.message().is_empty());
    assert!(!AffsError::InvalidDataSequence.message().is_empty());
}

#[test]
fn test_normal_sum_exact() {
    // One nonzero word: the checksum is its two's-complement negation.
    let mut buf = [0u8; 512];
    buf[4] = 0;
    buf[5] = 0;
    buf[6] = 0x01;
    buf[7] = 0x00;
    assert_eq!(normal_sum_slice(&buf, 20), 0x100u32.wrapping_neg());
    // The all-zero buffer sums to zero.
    assert_eq!(normal_sum_slice(&[0u8; 512], 20), 0);
}

#[test]
fn test_boot_sum_exact() {
    // All zeros: the complement of zero.
    assert_eq!(boot_sum(&[0u8; 1024]), 0xFFFFFFFF);
}

#[test]
fn test_bitmap_sum_exact() {
    // Word 1 holds 1: the sum is 0 - 1.
    let mut buf = [0u8; BLOCK_SIZE];
    buf[7] = 1;
    assert_eq!(bitmap_sum(&buf), u32::MAX);
}

#[test]
fn test_names_equal_symmetry_and_reflexivity() {
    let samples: [&[u8]; 5] = [b"", b"a", b"Workbench", b"caf\xE9", b"\xE0\xF7"];
    for a in samples.iter() {
        for b in samples.iter() {
            for intl in [false, true] {
                assert_eq!(names_equal(a, b, intl), names_equal(b, a, intl));
                assert!(names_equal(a, a, intl));
            }
        }
    }
    assert!(!names_equal(b"ab", b"abc", false));
    assert!(!names_equal(b"ab", b"abc", true));
}

#[test]
fn test_intl_fold_multiplication_sign() {
    // 247 (the multiplication sign) must not fold.
    assert_eq!(intl_to_upper(247), 247);
    // 254 folds to 222, 223 does not fold.
    assert_eq!(intl_to_upper(254), 222);
    assert_eq!(intl_to_upper(223), 223);
    // ASCII-only fold leaves Latin-1 bytes alone.
    assert!(!names_equal(&[224], &[192], false));
    assert!(names_equal(&[224], &[192], true));
}

#[test]
fn test_hash_name_known_bucket() {
    // hash("test") = fold over 't','e','s','t' starting from length 4.
    let mut h: u32 = 4;
    for &c in b"TEST" {
        h = (h.wrapping_mul(13).wrapping_add(c as u32)) & 0x7FF;
    }
    assert_eq!(hash_name(b"test", false), (h % 72) as usize);
    assert_eq!(hash_name(b"test", false), hash_name(b"TEST", false));
}

#[test]
fn test_valid_utf8() {
    assert_eq!(from_utf8(b"hello"), Some("hello"));
}

#[test]
fn test_invalid_utf8() {
    // Invalid UTF-8 sequence
    assert_eq!(from_utf8(&[0xFF, 0xFE]), None);
}

#[test]
fn test_utf8_multibyte() {
    assert_eq!(from_utf8("caf\u{e9}".as_bytes()), Some("caf\u{e9}"));
}

/// A device whose reads succeed but never hold a DOS signature: every
/// (boot-sector, block-size) combination fails, so probing reports
/// InvalidDosType.
struct ZeroSectorDevice;

impl SectorDevice for ZeroSectorDevice {
    fn read_sector(&self, _sector: u64, buf: &mut [u8; 512]) -> Result<(), ()> {
        for b in buf.iter_mut() {
            *b = 0;
        }
        Ok(())
    }
}

#[test]
fn test_var_probe_all_fail_invalid_dos_type() {
    let device = ZeroSectorDevice;
    let result = AffsReaderVar::new(&device, 100);
    assert!(matches!(result.map(|_| ()), Err(AffsError::InvalidDosType)));
}

/// Device where only the probe sectors succeed: chain blocks past the
/// directory fail to read.
struct FailingChainDevice;

impl SectorDevice for FailingChainDevice {
    fn read_sector(&self, sector: u64, buf: &mut [u8; 512]) -> Result<(), ()> {
        let helper = DummyGoodDevice;
        match sector {
            0 | 1 | 2 => helper.read_sector(sector, buf),
            _ => Err(()),
        }
    }
}

#[test]
fn test_var_dir_iter_terminates_after_read_error() {
    // The variable-size iterator also yields a read error once, then ends.
    let device = FailingChainDevice;
    let reader = AffsReaderVar::new(&device, 100).expect("probe should succeed");
    let mut iter = reader.read_root_dir().expect("read_root_dir");
    assert!(matches!(iter.next(), Some(Err(AffsError::BlockReadError))));
    assert!(iter.next().is_none());
    assert!(iter.next().is_none());
}
