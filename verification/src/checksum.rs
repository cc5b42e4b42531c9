//! Checksum calculation functions and their mathematical models.
//!
//! Three checksum variants are used by the on-disk format:
//! the "normal" sum (root/entry/extension/data blocks), the carry-accumulating
//! boot-block sum, and the subtracting bitmap-block sum.
use vstd::prelude::*;

use vstd::arithmetic::div_mod::{
    lemma_add_mod_noop, lemma_mod_add_multiples_vanish, lemma_mod_equivalence, lemma_small_mod,
};

use crate::constants::BLOCK_SIZE;

verus! {

/// The big-endian 32-bit word starting at byte offset `i` of `s`.
pub open spec fn be32_at(s: Seq<u8>, i: int) -> u32
    recommends
        0 <= i,
        i + 4 <= s.len(),
{
    ((s[i] as int) * 0x1000000 + (s[i + 1] as int) * 0x10000 + (s[i + 2] as int) * 0x100 + (s[i
        + 3] as int)) as u32
}

/// The big-endian 32-bit word at byte offset `i`, read as a signed value.
pub open spec fn be32_signed_at(s: Seq<u8>, i: int) -> int
    recommends
        0 <= i,
        i + 4 <= s.len(),
{
    let u = be32_at(s, i) as int;
    if u >= 0x80000000 {
        u - 0x100000000
    } else {
        u
    }
}

/// The big-endian 16-bit word starting at byte offset `i` of `s`.
pub open spec fn be16_at(s: Seq<u8>, i: int) -> u16
    recommends
        0 <= i,
        i + 2 <= s.len(),
{
    ((s[i] as int) * 0x100 + (s[i + 1] as int)) as u16
}

/// The `k`-th big-endian 32-bit word of `s` (bytes `4k .. 4k+4`).
pub open spec fn word_at(s: Seq<u8>, k: int) -> u32
    recommends
        0 <= k,
        4 * k + 4 <= s.len(),
{
    be32_at(s, 4 * k)
}

/// 32-bit wrapping addition.
pub open spec fn wadd32(a: u32, b: u32) -> u32 {
    ((a as int + b as int) % 0x100000000) as u32
}

/// 32-bit wrapping subtraction.
pub open spec fn wsub32(a: u32, b: u32) -> u32 {
    ((a as int - b as int) % 0x100000000) as u32
}

/// 32-bit two's-complement negation.
pub open spec fn wneg32(a: u32) -> u32 {
    ((0x100000000 - a as int) % 0x100000000) as u32
}

/// Wrapping sum of the first `n` big-endian words of `s`, skipping the word
/// with index `skip_word`.
pub open spec fn normal_word_sum(s: Seq<u8>, skip_word: int, n: int) -> u32
    decreases n,
{
    if n <= 0 {
        0u32
    } else if n - 1 == skip_word {
        normal_word_sum(s, skip_word, n - 1)
    } else {
        wadd32(normal_word_sum(s, skip_word, n - 1), be32_at(s, 4 * (n - 1)))
    }
}

/// The normal checksum of `s` with the checksum word at byte offset
/// `checksum_offset`: the negated wrapping sum of every other word.
pub open spec fn spec_normal_sum(s: Seq<u8>, checksum_offset: int) -> u32 {
    wneg32(normal_word_sum(s, checksum_offset / 4, s.len() as int / 4))
}

/// One step of the boot checksum: one's-complement addition
/// (add, then add 1 more on 32-bit overflow).
pub open spec fn boot_add(sum: u32, d: u32) -> u32 {
    let t = wadd32(sum, d);
    if t < sum {
        wadd32(t, 1)
    } else {
        t
    }
}

/// Carry-accumulating sum of the first `n` words of a boot block,
/// skipping word index 1 (the stored checksum itself).
pub open spec fn boot_word_sum(s: Seq<u8>, n: int) -> u32
    decreases n,
{
    if n <= 0 {
        0u32
    } else if n - 1 == 1 {
        boot_word_sum(s, n - 1)
    } else {
        boot_add(boot_word_sum(s, n - 1), be32_at(s, 4 * (n - 1)))
    }
}

/// The boot-block checksum: the complement of the carry-accumulating sum
/// over all 256 words except word 1.
pub open spec fn spec_boot_sum(s: Seq<u8>) -> u32 {
    (0xFFFFFFFF - boot_word_sum(s, 256) as int) as u32
}

/// Wrapping difference 0 - (word 1 + ... + word (n-1)).
pub open spec fn bitmap_word_sum(s: Seq<u8>, n: int) -> u32
    decreases n,
{
    if n <= 1 {
        0u32
    } else {
        wsub32(bitmap_word_sum(s, n - 1), be32_at(s, 4 * (n - 1)))
    }
}

/// The bitmap-block checksum: words 1..127 subtracted from zero.
pub open spec fn spec_bitmap_sum(s: Seq<u8>) -> u32 {
    bitmap_word_sum(s, 128)
}

/// Read a big-endian u32 from a slice.
pub fn read_u32_be_slice(buf: &[u8], offset: usize) -> (r: u32)
    requires
        offset + 4 <= buf@.len(),
    ensures
        r == be32_at(buf@, offset as int),
{
    (buf[offset] as u32) * 0x1000000 + (buf[offset + 1] as u32) * 0x10000 + (buf[offset
        + 2] as u32) * 0x100 + (buf[offset + 3] as u32)
}

/// Read a big-endian u32 from a block buffer.
pub fn read_u32_be(buf: &[u8; BLOCK_SIZE], offset: usize) -> (r: u32)
    requires
        offset + 4 <= BLOCK_SIZE,
    ensures
        r == be32_at(buf@, offset as int),
{
    read_u32_be_slice(buf.as_slice(), offset)
}

/// Read a big-endian i32 from a slice.
pub fn read_i32_be_slice(buf: &[u8], offset: usize) -> (r: i32)
    requires
        offset + 4 <= buf@.len(),
    ensures
        r as int == be32_signed_at(buf@, offset as int),
{
    let u = read_u32_be_slice(buf, offset);
    if u >= 0x80000000 {
        let v = (u - 0x80000000) as i32;
        (v - 0x7FFFFFFF) - 1
    } else {
        u as i32
    }
}

/// Read a big-endian i32 from a block buffer.
pub fn read_i32_be(buf: &[u8; BLOCK_SIZE], offset: usize) -> (r: i32)
    requires
        offset + 4 <= BLOCK_SIZE,
    ensures
        r as int == be32_signed_at(buf@, offset as int),
{
    read_i32_be_slice(buf.as_slice(), offset)
}

/// Read a big-endian u16 from a block buffer.
pub fn read_u16_be(buf: &[u8; BLOCK_SIZE], offset: usize) -> (r: u16)
    requires
        offset + 2 <= BLOCK_SIZE,
    ensures
        r == be16_at(buf@, offset as int),
{
    (buf[offset] as u16) * 0x100 + (buf[offset + 1] as u16)
}

/// Calculate the normal checksum for a variable-size block.
///
/// Sums all big-endian 32-bit words except the one containing the checksum
/// itself, and returns the two's-complement negation of the sum.
pub fn normal_sum_slice(buf: &[u8], checksum_offset: usize) -> (r: u32)
    requires
        buf@.len() % 4 == 0,
        checksum_offset % 4 == 0,
    ensures
        r == spec_normal_sum(buf@, checksum_offset as int),
{
    let checksum_word = checksum_offset / 4;
    let num_words = buf.len() / 4;
    let mut sum: u32 = 0;
    let mut offset: usize = 0;
    let mut i: usize = 0;
    while i < num_words
        invariant
            0 <= i <= num_words,
            num_words == buf@.len() / 4,
            buf@.len() == 4 * num_words,
            4 * num_words <= usize::MAX,
            offset == 4 * i,
            checksum_word == checksum_offset as int / 4,
            sum == normal_word_sum(buf@, checksum_word as int, i as int),
        decreases num_words - i,
    {
        if i != checksum_word {
            let word = read_u32_be_slice(buf, offset);
            sum = sum.wrapping_add(word);
        }
        i += 1;
        offset += 4;
    }
    if sum == 0 {
        0
    } else {
        (0xFFFFFFFF - sum) + 1
    }
}

/// Calculate the normal checksum for a standard block.
pub fn normal_sum(buf: &[u8; BLOCK_SIZE], checksum_offset: usize) -> (r: u32)
    requires
        checksum_offset % 4 == 0,
    ensures
        r == spec_normal_sum(buf@, checksum_offset as int),
{
    normal_sum_slice(buf.as_slice(), checksum_offset)
}

/// Calculate the boot block checksum: a one's-complement sum with explicit
/// carry propagation over all words except word 1, complemented at the end.
pub fn boot_sum(buf: &[u8; 1024]) -> (r: u32)
    ensures
        r == spec_boot_sum(buf@),
{
    let s = buf.as_slice();
    let mut sum: u32 = 0;
    let mut offset: usize = 0;
    let mut i: usize = 0;
    while i < 256
        invariant
            0 <= i <= 256,
            s@ == buf@,
            s@.len() == 1024,
            offset == 4 * i,
            sum == boot_word_sum(buf@, i as int),
        decreases 256 - i,
    {
        if i != 1 {
            let d = read_u32_be_slice(s, offset);
            let new_sum = sum.wrapping_add(d);
            sum = if new_sum < sum {
                new_sum.wrapping_add(1)
            } else {
                new_sum
            };
        }
        i += 1;
        offset += 4;
    }
    0xFFFFFFFF - sum
}

/// Plain integer sum of the first `n` big-endian words of `s`, skipping the
/// word with index `skip_word` (no wrapping).
pub open spec fn word_sum_int(s: Seq<u8>, skip_word: int, n: int) -> int
    decreases n,
{
    if n <= 0 {
        0
    } else if n - 1 == skip_word {
        word_sum_int(s, skip_word, n - 1)
    } else {
        word_sum_int(s, skip_word, n - 1) + be32_at(s, 4 * (n - 1))
    }
}

proof fn lemma_word_sum_nonneg(s: Seq<u8>, skip: int, n: int)
    ensures
        word_sum_int(s, skip, n) >= 0,
    decreases n,
{
    if n > 0 {
        lemma_word_sum_nonneg(s, skip, n - 1);
    }
}

proof fn lemma_word_sum_mod(s: Seq<u8>, skip: int, n: int)
    ensures
        normal_word_sum(s, skip, n) == word_sum_int(s, skip, n) % 0x100000000,
    decreases n,
{
    let m = 0x100000000int;
    if n <= 0 {
    } else {
        lemma_word_sum_mod(s, skip, n - 1);
        if n - 1 != skip {
            let prev = word_sum_int(s, skip, n - 1);
            let w = be32_at(s, 4 * (n - 1)) as int;
            lemma_word_sum_nonneg(s, skip, n - 1);
            lemma_small_mod(w as nat, m as nat);
            lemma_add_mod_noop(prev, w, m);
            assert(((prev % m) + (w % m)) % m == (prev + w) % m);
            assert(normal_word_sum(s, skip, n) == ((prev % m) + w) % m);
        }
    }
}

proof fn lemma_word_sum_congruence(s: Seq<u8>, t: Seq<u8>, skip: int, n: int)
    requires
        forall|k: int| 0 <= k < n && k != skip ==> word_at(s, k) == word_at(t, k),
    ensures
        word_sum_int(s, skip, n) == word_sum_int(t, skip, n),
    decreases n,
{
    if n > 0 {
        lemma_word_sum_congruence(s, t, skip, n - 1);
        if n - 1 != skip {
            assert(word_at(s, n - 1) == word_at(t, n - 1));
        }
    }
}

proof fn lemma_word_sum_change(s: Seq<u8>, t: Seq<u8>, skip: int, j: int, n: int)
    requires
        0 <= j < n,
        j != skip,
        forall|k: int| 0 <= k < n && k != skip && k != j ==> word_at(s, k) == word_at(t, k),
    ensures
        word_sum_int(t, skip, n) == word_sum_int(s, skip, n) - be32_at(s, 4 * j) + be32_at(
            t,
            4 * j,
        ),
    decreases n,
{
    if n - 1 == j {
        lemma_word_sum_congruence(s, t, skip, n - 1);
        assert(word_at(s, j) == be32_at(s, 4 * j));
        assert(word_at(t, j) == be32_at(t, 4 * j));
    } else {
        lemma_word_sum_change(s, t, skip, j, n - 1);
        if n - 1 != skip {
            assert(word_at(s, n - 1) == word_at(t, n - 1));
        }
        assert(word_at(s, j) == be32_at(s, 4 * j));
        assert(word_at(t, j) == be32_at(t, 4 * j));
    }
}

/// The words of `s` and `t` other than word `cw` coincide when the bytes of
/// `s` and `t` outside the byte range of word `cw` coincide.
proof fn lemma_bytes_to_words(s: Seq<u8>, t: Seq<u8>, cw: int, n: int)
    requires
        t.len() == s.len(),
        4 * n <= s.len(),
        forall|i: int|
            0 <= i < s.len() && !(4 * cw <= i < 4 * cw + 4) ==> t[i] == s[i],
    ensures
        forall|k: int| 0 <= k < n && k != cw ==> word_at(s, k) == word_at(t, k),
{
    assert forall|k: int| 0 <= k < n && k != cw implies word_at(s, k) == word_at(t, k) by {
        assert(t[4 * k] == s[4 * k]);
        assert(t[4 * k + 1] == s[4 * k + 1]);
        assert(t[4 * k + 2] == s[4 * k + 2]);
        assert(t[4 * k + 3] == s[4 * k + 3]);
    }
}

/// The checksum round trip: writing the normal checksum of a buffer back into
/// the buffer's own checksum word yields a buffer whose stored checksum
/// validates against the recomputed normal checksum.
pub proof fn lemma_normal_sum_round_trip(s: Seq<u8>, t: Seq<u8>, checksum_offset: int)
    requires
        s.len() % 4 == 0,
        t.len() == s.len(),
        0 <= checksum_offset,
        checksum_offset % 4 == 0,
        checksum_offset + 4 <= s.len(),
        forall|i: int|
            0 <= i < s.len() && !(checksum_offset <= i < checksum_offset + 4) ==> t[i] == s[i],
        be32_at(t, checksum_offset) == spec_normal_sum(s, checksum_offset),
    ensures
        be32_at(t, checksum_offset) == spec_normal_sum(t, checksum_offset),
{
    let cw = checksum_offset / 4;
    let n = s.len() as int / 4;
    assert(4 * cw == checksum_offset);
    assert(4 * n == s.len());
    lemma_bytes_to_words(s, t, cw, n);
    lemma_word_sum_congruence(s, t, cw, n);
    lemma_word_sum_mod(s, cw, n);
    lemma_word_sum_mod(t, cw, n);
}

/// Corrupting the word at byte offset `j` (any word other than the checksum
/// word itself), without recomputing the checksum, makes validation fail.
pub proof fn lemma_normal_sum_detects_change(s: Seq<u8>, t: Seq<u8>, checksum_offset: int, j: int)
    requires
        s.len() % 4 == 0,
        t.len() == s.len(),
        0 <= checksum_offset,
        checksum_offset % 4 == 0,
        checksum_offset + 4 <= s.len(),
        0 <= j,
        j % 4 == 0,
        j + 4 <= s.len(),
        j != checksum_offset,
        forall|i: int| 0 <= i < s.len() && !(j <= i < j + 4) ==> t[i] == s[i],
        be32_at(t, j) != be32_at(s, j),
        be32_at(s, checksum_offset) == spec_normal_sum(s, checksum_offset),
    ensures
        be32_at(t, checksum_offset) != spec_normal_sum(t, checksum_offset),
{
    let m = 0x100000000int;
    let cw = checksum_offset / 4;
    let jw = j / 4;
    let n = s.len() as int / 4;
    assert(4 * cw == checksum_offset);
    assert(4 * jw == j);
    assert(4 * n == s.len());
    assert(jw != cw);
    lemma_bytes_to_words(s, t, jw, n);
    lemma_word_sum_change(s, t, cw, jw, n);
    lemma_word_sum_mod(s, cw, n);
    lemma_word_sum_mod(t, cw, n);
    let ss = word_sum_int(s, cw, n);
    let st = word_sum_int(t, cw, n);
    let ws = be32_at(s, j) as int;
    let wt = be32_at(t, j) as int;
    assert(st == ss - ws + wt);
    lemma_word_sum_nonneg(s, cw, n);
    lemma_word_sum_nonneg(t, cw, n);
    // The checksum word itself is unchanged, so the stored value is the same.
    assert(be32_at(t, checksum_offset) == be32_at(s, checksum_offset)) by {
        assert(t[checksum_offset] == s[checksum_offset]);
        assert(t[checksum_offset + 1] == s[checksum_offset + 1]);
        assert(t[checksum_offset + 2] == s[checksum_offset + 2]);
        assert(t[checksum_offset + 3] == s[checksum_offset + 3]);
    }
    // Suppose validation still succeeded; derive a contradiction.
    if be32_at(t, checksum_offset) == spec_normal_sum(t, checksum_offset) {
        let a = normal_word_sum(s, cw, n) as int;
        let b = normal_word_sum(t, cw, n) as int;
        // wneg32 values are equal, hence the word sums are equal mod 2^32.
        assert(wneg32(normal_word_sum(s, cw, n)) == wneg32(normal_word_sum(t, cw, n)));
        assert((m - a) % m == (m - b) % m);
        lemma_mod_equivalence(m - a, m - b, m);
        assert(((m - a) - (m - b)) % m == 0);
        assert((b - a) % m == 0);
        if b != a {
            if b - a > 0 {
                lemma_small_mod((b - a) as nat, m as nat);
                assert((b - a) % m == b - a);
            } else {
                lemma_mod_add_multiples_vanish(b - a, m);
                lemma_small_mod((b - a + m) as nat, m as nat);
                assert((b - a) % m == b - a + m);
            }
            assert(false);
        }
        // So the word sums agree mod 2^32, hence the changed word cancels out.
        assert(ss % m == st % m);
        lemma_mod_equivalence(ss, st, m);
        assert((ss - st) % m == 0);
        assert(ss - st == ws - wt);
        if ws != wt {
            if ws - wt > 0 {
                lemma_small_mod((ws - wt) as nat, m as nat);
            } else {
                lemma_mod_add_multiples_vanish(ws - wt, m);
                lemma_small_mod((ws - wt + m) as nat, m as nat);
            }
            assert(false);
        }
        assert(false);
    }
}

proof fn lemma_boot_word_sum_congruence(s: Seq<u8>, t: Seq<u8>, n: int)
    requires
        forall|k: int| 0 <= k < n && k != 1 ==> word_at(s, k) == word_at(t, k),
    ensures
        boot_word_sum(s, n) == boot_word_sum(t, n),
    decreases n,
{
    if n > 0 {
        lemma_boot_word_sum_congruence(s, t, n - 1);
        if n - 1 != 1 {
            assert(word_at(s, n - 1) == word_at(t, n - 1));
        }
    }
}

/// The boot checksum round trip: the boot sum skips its own checksum word
/// (bytes 4..8), so writing the boot checksum of a buffer back into that
/// word yields a buffer whose stored checksum validates against the
/// recomputed boot sum.
pub proof fn lemma_boot_sum_round_trip(s: Seq<u8>, t: Seq<u8>)
    requires
        s.len() == 1024,
        t.len() == 1024,
        forall|i: int| 0 <= i < 1024 && !(4 <= i < 8) ==> t[i] == s[i],
        be32_at(t, 4) == spec_boot_sum(s),
    ensures
        be32_at(t, 4) == spec_boot_sum(t),
{
    lemma_bytes_to_words(s, t, 1, 256);
    lemma_boot_word_sum_congruence(s, t, 256);
}

/// Calculate the bitmap block checksum: words 1..127 subtracted from zero.
pub fn bitmap_sum(buf: &[u8; BLOCK_SIZE]) -> (r: u32)
    ensures
        r == spec_bitmap_sum(buf@),
{
    let s = buf.as_slice();
    let mut sum: u32 = 0;
    let mut offset: usize = 4;
    let mut i: usize = 1;
    while i < 128
        invariant
            1 <= i <= 128,
            s@ == buf@,
            s@.len() == 512,
            offset == 4 * i,
            sum == bitmap_word_sum(buf@, i as int),
        decreases 128 - i,
    {
        let word = read_u32_be_slice(s, offset);
        sum = sum.wrapping_sub(word);
        i += 1;
        offset += 4;
    }
    sum
}

} // verus!
