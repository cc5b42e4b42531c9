//! Directory traversal.
//!
//! Directory entries are distributed into 72 hash buckets by name hash;
//! collisions form a singly-linked chain through the `next_same_hash` field.
//! The iterator walks one bucket at a time, following each bucket's chain to
//! exhaustion before moving to the next non-empty bucket.
use vstd::prelude::*;

use crate::block::{hash_name, names_equal, spec_hash_name, spec_names_equal, EntryBlock};
use crate::constants::{BLOCK_SIZE, HASH_TABLE_SIZE, MAX_COMMENT_LEN, MAX_NAME_LEN};
use crate::date::AmigaDate;
use crate::error::AffsError;
use crate::types::{spec_entry_type, Access, BlockDevice, EntryType};
use crate::utf8::{from_utf8, utf8_decode};

verus! {

/// Copy the first `len` bytes of `src` into a fresh zero-padded fixed-size
/// array.
pub(crate) fn copy_prefix<const N: usize>(src: &[u8], len: usize) -> (r: [u8; N])
    requires
        len <= N,
        len <= src@.len(),
    ensures
        forall|i: int| 0 <= i < len ==> #[trigger] r@[i] == src@[i],
        forall|i: int| len <= i < N ==> #[trigger] r@[i] == 0,
{
    let mut out = [0u8; N];
    let mut i: usize = 0;
    while i < len
        invariant
            i <= len,
            len <= N,
            len <= src@.len(),
            forall|j: int| 0 <= j < i ==> #[trigger] out@[j] == src@[j],
            forall|j: int| i <= j < N ==> #[trigger] out@[j] == 0,
        decreases len - i,
    {
        out[i] = src[i];
        i += 1;
    }
    out
}

/// Directory entry information: the denormalized view of an entry block.
#[derive(Debug, Clone)]
pub struct DirEntry {
    /// Entry name (up to 30 bytes).
    pub name: [u8; MAX_NAME_LEN],
    /// Name length.
    pub name_len: u8,
    /// Entry type.
    pub entry_type: EntryType,
    /// Block number of this entry.
    pub block: u32,
    /// Parent block number.
    pub parent: u32,
    /// File size (0 for directories).
    pub size: u32,
    /// Access permissions.
    pub access: Access,
    /// Last modification date.
    pub date: AmigaDate,
    /// Real entry (for hard links).
    pub real_entry: u32,
    /// Comment (if any).
    pub comment: [u8; MAX_COMMENT_LEN],
    /// Comment length.
    pub comment_len: u8,
}

impl DirEntry {
    /// Create from an entry block; yields nothing when the block's secondary
    /// type is not a recognized entry type.
    pub fn from_entry_block(block_num: u32, entry: &EntryBlock) -> (r: Option<Self>)
        ensures
            r is Some <==> spec_entry_type(entry.sec_type as int) is Some,
            r matches Some(d) ==> {
                &&& Some(d.entry_type) == spec_entry_type(entry.sec_type as int)
                &&& d.block == block_num
                &&& d.parent == entry.parent
                &&& d.size == entry.byte_size
                &&& d.access.0 == entry.access
                &&& d.date == entry.date
                &&& d.real_entry == entry.real_entry
                &&& d.name_len == (if entry.name_len > 30 {
                    30u8
                } else {
                    entry.name_len
                })
                &&& forall|i: int| 0 <= i < d.name_len ==> #[trigger] d.name@[i] == entry.name@[i]
                &&& forall|i: int| d.name_len <= i < MAX_NAME_LEN ==> #[trigger] d.name@[i] == 0
                &&& d.comment_len == (if entry.comment_len > 79 {
                    79u8
                } else {
                    entry.comment_len
                })
                &&& forall|i: int|
                    0 <= i < d.comment_len ==> #[trigger] d.comment@[i] == entry.comment@[i]
                &&& forall|i: int|
                    d.comment_len <= i < MAX_COMMENT_LEN ==> #[trigger] d.comment@[i] == 0
            },
    {
        let entry_type = match entry.entry_type() {
            Some(t) => t,
            None => {
                return None;
            },
        };
        let nl = entry.name_len;
        let name_len: u8 = if nl > 30 {
            30
        } else {
            nl
        };
        let name: [u8; MAX_NAME_LEN] = copy_prefix(
            &entry.name[0..MAX_NAME_LEN],
            name_len as usize,
        );
        let cl = entry.comment_len;
        let comment_len: u8 = if cl > 79 {
            79
        } else {
            cl
        };
        let comment: [u8; MAX_COMMENT_LEN] = copy_prefix(
            &entry.comment[0..MAX_COMMENT_LEN],
            comment_len as usize,
        );
        Some(
            DirEntry {
                name,
                name_len,
                entry_type,
                block: block_num,
                parent: entry.parent,
                size: entry.byte_size,
                access: Access::new(entry.access),
                date: entry.date,
                real_entry: entry.real_entry,
                comment,
                comment_len,
            },
        )
    }

    /// The entry's name bytes.
    pub open spec fn spec_name(&self) -> Seq<u8> {
        self.name@.subrange(0, self.name_len as int)
    }

    /// Get entry name as a byte slice.
    pub fn name(&self) -> (r: &[u8])
        requires
            self.name_len <= MAX_NAME_LEN,
        ensures
            r@ == self.spec_name(),
    {
        &self.name[0..self.name_len as usize]
    }

    /// Get entry name as a string slice (if valid UTF-8).
    pub fn name_str(&self) -> (r: Option<&str>)
        requires
            self.name_len <= MAX_NAME_LEN,
        ensures
            r is Some <==> utf8_decode(self.spec_name()) is Some,
            r matches Some(s) ==> utf8_decode(self.spec_name()) == Some(s@),
    {
        from_utf8(self.name())
    }

    /// The entry's comment bytes.
    pub open spec fn spec_comment(&self) -> Seq<u8> {
        self.comment@.subrange(0, self.comment_len as int)
    }

    /// Get comment as a byte slice.
    pub fn comment(&self) -> (r: &[u8])
        requires
            self.comment_len <= MAX_COMMENT_LEN,
        ensures
            r@ == self.spec_comment(),
    {
        &self.comment[0..self.comment_len as usize]
    }

    /// Get comment as a string slice (if valid UTF-8).
    pub fn comment_str(&self) -> (r: Option<&str>)
        requires
            self.comment_len <= MAX_COMMENT_LEN,
        ensures
            r is Some <==> utf8_decode(self.spec_comment()) is Some,
            r matches Some(s) ==> utf8_decode(self.spec_comment()) == Some(s@),
    {
        from_utf8(self.comment())
    }

    /// Check if this is a directory.
    pub fn is_dir(&self) -> (r: bool)
        ensures
            r == (self.entry_type == EntryType::Root || self.entry_type == EntryType::Dir
                || self.entry_type == EntryType::HardLinkDir),
    {
        self.entry_type.is_dir()
    }

    /// Check if this is a file.
    pub fn is_file(&self) -> (r: bool)
        ensures
            r == (self.entry_type == EntryType::File || self.entry_type
                == EntryType::HardLinkFile),
    {
        self.entry_type.is_file()
    }

    /// Check if this is a symlink.
    pub fn is_symlink(&self) -> (r: bool)
        ensures
            r == (self.entry_type == EntryType::SoftLink),
    {
        match self.entry_type {
            EntryType::SoftLink => true,
            _ => false,
        }
    }
}

/// Iterator over directory entries.
///
/// Entries are read lazily from the hash table, one bucket's collision
/// chain at a time.
pub struct DirIter<'a, D: BlockDevice> {
    device: &'a D,
    hash_table: [u32; HASH_TABLE_SIZE],
    hash_index: usize,
    current_chain: u32,
    intl: bool,
    buf: [u8; BLOCK_SIZE],
}

impl<'a, D: BlockDevice> DirIter<'a, D> {
    /// The iterator's bucket cursor never leaves the hash table.
    pub closed spec fn wf(&self) -> bool {
        self.hash_index <= HASH_TABLE_SIZE
    }

    /// The hash table the iterator walks.
    pub closed spec fn spec_hash_table(&self) -> Seq<u32> {
        self.hash_table@
    }

    /// Whether the iterator folds names in international mode.
    pub closed spec fn spec_intl(&self) -> bool {
        self.intl
    }

    /// The bucket the scan will look at next.
    pub closed spec fn spec_hash_index(&self) -> usize {
        self.hash_index
    }

    /// The block number of the next chain entry, zero when not mid-chain.
    pub closed spec fn spec_current_chain(&self) -> u32 {
        self.current_chain
    }

    /// Whether iteration has ended: no chain in progress and no bucket left
    /// to scan. A finished iterator yields nothing and touches no device.
    pub open spec fn spec_done(&self) -> bool {
        self.spec_current_chain() == 0 && self.spec_hash_index() >= HASH_TABLE_SIZE
    }

    /// Create a new directory iterator over a hash table.
    pub(crate) fn new(device: &'a D, hash_table: [u32; HASH_TABLE_SIZE], intl: bool) -> (r: Self)
        ensures
            r.wf(),
            r.spec_hash_table() == hash_table@,
            r.spec_intl() == intl,
    {
        DirIter { device, hash_table, hash_index: 0, current_chain: 0, intl, buf: [0u8; BLOCK_SIZE] }
    }

    /// Find an entry by name in this directory.
    ///
    /// The name's bucket is computed by the hash, and only that bucket's
    /// collision chain is walked; the first entry whose name compares equal
    /// under the configured fold is returned.
    #[verifier::loop_isolation(false)]
    pub fn find(self, name: &[u8]) -> (r: Result<DirEntry, AffsError>)
        ensures
            name@.len() > MAX_NAME_LEN <==> r == Result::<DirEntry, AffsError>::Err(
                AffsError::NameTooLong,
            ),
            r matches Ok(d) ==> d.name_len <= MAX_NAME_LEN && spec_names_equal(
                d.spec_name(),
                name@,
                self.spec_intl(),
            ),
            // Only the name's own bucket is inspected: an empty bucket
            // means the entry is not found, without any device access.
            name@.len() <= MAX_NAME_LEN && self.spec_hash_table()[spec_hash_name(
                name@,
                self.spec_intl(),
            )] == 0 ==> r == Result::<DirEntry, AffsError>::Err(AffsError::EntryNotFound),
    {
        let mut this = self;
        if name.len() > MAX_NAME_LEN {
            return Err(AffsError::NameTooLong);
        }
        let hash = hash_name(name, this.intl);
        let mut block = this.hash_table[hash];
        // A chain longer than the whole block-number space must be cyclic:
        // give up on it rather than follow it forever.
        let mut steps: u64 = 0x100000000;
        while block != 0
            invariant
                name@.len() <= MAX_NAME_LEN,
                this.intl == self.spec_intl(),
                self.spec_hash_table()[spec_hash_name(name@, self.spec_intl())] == 0 ==> block
                    == 0,
            decreases steps,
        {
            if steps == 0 {
                return Err(AffsError::InvalidDataSequence);
            }
            steps = steps - 1;
            match this.device.read_block(block, &mut this.buf) {
                Ok(()) => (),
                Err(()) => {
                    return Err(AffsError::BlockReadError);
                },
            }
            let entry = match EntryBlock::parse(&this.buf) {
                Ok(e) => e,
                Err(e) => {
                    return Err(e);
                },
            };
            if names_equal(entry.name(), name, this.intl) {
                match DirEntry::from_entry_block(block, &entry) {
                    Some(d) => {
                        proof {
                            assert(d.spec_name() =~= entry.name@.subrange(
                                0,
                                entry.name_len as int,
                            ));
                        }
                        return Ok(d);
                    },
                    None => {
                        return Err(AffsError::InvalidSecType);
                    },
                }
            }
            block = entry.next_same_hash;
        }
        Err(AffsError::EntryNotFound)
    }

    /// Mark the iteration as finished: nothing more will be yielded.
    fn finish(&mut self)
        requires
            old(self).wf(),
        ensures
            final(self).spec_done(),
            final(self).wf(),
            final(self).spec_hash_table() == old(self).spec_hash_table(),
            final(self).spec_intl() == old(self).spec_intl(),
            old(self).spec_hash_index() <= final(self).spec_hash_index(),
    {
        self.current_chain = 0;
        self.hash_index = HASH_TABLE_SIZE;
    }

    /// Produce the next directory entry.
    ///
    /// Mid-chain, the chain block is read and decoded; an entry with an
    /// unrecognized secondary type is skipped silently. A failed block read
    /// or a block that fails to decode yields exactly one error result and
    /// ends the iteration. When the chain ends, the remaining bucket slots
    /// are scanned for the next non-empty chain; iteration ends when none
    /// is left, and a finished iterator keeps yielding nothing without
    /// touching the device.
    #[verifier::loop_isolation(false)]
    pub fn next(&mut self) -> (r: Option<Result<DirEntry, AffsError>>)
        requires
            old(self).wf(),
        ensures
            final(self).wf(),
            final(self).spec_hash_table() == old(self).spec_hash_table(),
            final(self).spec_intl() == old(self).spec_intl(),
            r matches Some(res) ==> (res matches Ok(d) ==> d.name_len <= MAX_NAME_LEN
                && d.comment_len <= MAX_COMMENT_LEN),
            // When no chain is in progress and every remaining bucket slot
            // is empty, iteration ends here (and no block is read).
            old(self).spec_current_chain() == 0 && (forall|i: int|
                old(self).spec_hash_index() <= i < HASH_TABLE_SIZE ==> old(self).spec_hash_table()[i] == 0) ==> r == Option::<Result<DirEntry, AffsError>>::None,
            // A finished iterator stays finished, untouched.
            old(self).spec_done() ==> *final(self) == *old(self),
            r is None ==> final(self).spec_done(),
            // An error is yielded at most once: it finishes the iteration.
            r matches Some(res) ==> (res is Err ==> final(self).spec_done()),
    {
        let ghost empty_rest = old(self).spec_current_chain() == 0 && (forall|i: int|
            old(self).spec_hash_index() <= i < HASH_TABLE_SIZE ==> old(self).spec_hash_table()[i] == 0);
        // A chain longer than the whole block-number space must be cyclic:
        // give up on it rather than follow it forever.
        let mut steps: u64 = 0x100000000;
        loop
            invariant
                self.wf(),
                self.spec_hash_table() == old(self).spec_hash_table(),
                self.spec_intl() == old(self).spec_intl(),
                old(self).spec_hash_index() <= self.spec_hash_index(),
                empty_rest ==> self.spec_current_chain() == 0,
                empty_rest ==> steps == 0x100000000,
                old(self).spec_done() ==> *self == *old(self),
            decreases steps,
        {
            if steps == 0 {
                self.finish();
                return Some(Err(AffsError::InvalidDataSequence));
            }
            steps = steps - 1;
            // If we're in a hash chain, continue it
            if self.current_chain != 0 {
                let result = self.device.read_block(self.current_chain, &mut self.buf);
                if result.is_err() {
                    self.finish();
                    return Some(Err(AffsError::BlockReadError));
                }
                match EntryBlock::parse(&self.buf) {
                    Ok(entry) => {
                        let block = self.current_chain;
                        self.current_chain = entry.next_same_hash;
                        match DirEntry::from_entry_block(block, &entry) {
                            Some(dir_entry) => {
                                return Some(Ok(dir_entry));
                            },
                            // Skip unrecognized entries
                            None => {
                                continue ;
                            },
                        }
                    },
                    Err(e) => {
                        self.finish();
                        return Some(Err(e));
                    },
                }
            }
            // Find next non-empty hash slot
            while self.hash_index < HASH_TABLE_SIZE && self.current_chain == 0
                invariant
                    self.wf(),
                    self.spec_hash_table() == old(self).spec_hash_table(),
                    self.spec_intl() == old(self).spec_intl(),
                    old(self).spec_hash_index() <= self.spec_hash_index(),
                    empty_rest ==> self.spec_current_chain() == 0,
                    old(self).spec_done() ==> *self == *old(self),
                decreases HASH_TABLE_SIZE - self.hash_index,
            {
                let ghost idx = self.spec_hash_index();
                proof {
                    if empty_rest {
                        assert(old(self).spec_hash_table()[idx as int] == 0);
                    }
                }
                let block = self.hash_table[self.hash_index];
                self.hash_index += 1;
                if block != 0 {
                    self.current_chain = block;
                }
            }
            // No more entries
            if self.current_chain == 0 {
                return None;
            }
        }
    }
}

} // verus!
