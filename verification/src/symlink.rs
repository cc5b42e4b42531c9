//! Symlink target reading.
//!
//! A symlink target is stored as a null-terminated Latin-1 string at a fixed
//! in-block offset; it is transcoded to UTF-8, with a single leading `:`
//! (the Amiga volume reference) replaced by `/`.
use vstd::prelude::*;

use crate::constants::{BLOCK_SIZE, FILE_LOCATION, SYMLINK_OFFSET};

verus! {

/// Maximum symlink target length.
///
/// For a 512-byte block, symlink data starts at offset 24 and ends before
/// the file header structure at offset 312 (512 - 200), giving 288 bytes.
/// For larger block sizes, this grows proportionally.
pub const MAX_SYMLINK_LEN: usize = BLOCK_SIZE - SYMLINK_OFFSET - FILE_LOCATION;

/// The UTF-8 encoding of one Latin-1 byte: ASCII is itself, a high byte
/// becomes a two-byte sequence.
pub open spec fn spec_latin1_utf8(b: u8) -> Seq<u8> {
    if b < 0x80 {
        seq![b]
    } else {
        seq![(0xC0 | (b >> 6)) as u8, (0x80 | (b & 0x3F)) as u8]
    }
}

/// The target bytes with a leading `:` replaced by `/`.
pub open spec fn spec_colon_adjusted(s: Seq<u8>) -> Seq<u8> {
    if s.len() > 0 && s[0] == 58 {
        s.update(0, 47u8)
    } else {
        s
    }
}

/// Latin-1 to UTF-8 transcoding of a whole byte sequence.
pub open spec fn spec_latin1_to_utf8(s: Seq<u8>) -> Seq<u8>
    decreases s.len(),
{
    if s.len() == 0 {
        Seq::empty()
    } else {
        spec_latin1_to_utf8(s.drop_last()) + spec_latin1_utf8(s.last())
    }
}

/// The transcoded symlink target: adjust the leading colon, then transcode
/// every byte.
pub open spec fn spec_symlink_transcode(s: Seq<u8>) -> Seq<u8> {
    spec_latin1_to_utf8(spec_colon_adjusted(s))
}

/// The transcoding produces at least one and at most two bytes per input
/// byte.
pub proof fn lemma_transcode_len(s: Seq<u8>)
    ensures
        s.len() <= spec_latin1_to_utf8(s).len() <= 2 * s.len(),
    decreases s.len(),
{
    if s.len() > 0 {
        lemma_transcode_len(s.drop_last());
    }
}

/// The length of the null-terminated prefix of `s`: the index of the first
/// zero byte, or the whole length when no zero occurs.
pub open spec fn spec_cstr_len(s: Seq<u8>) -> int
    decreases s.len(),
{
    if s.len() == 0 {
        0
    } else if s[0] == 0 {
        0
    } else {
        1 + spec_cstr_len(s.subrange(1, s.len() as int))
    }
}

proof fn lemma_cstr_len_characterization(s: Seq<u8>, i: int)
    requires
        0 <= i <= s.len(),
        forall|j: int| 0 <= j < i ==> s[j] != 0,
        i < s.len() ==> s[i] == 0,
    ensures
        spec_cstr_len(s) == i,
    decreases s.len(),
{
    if s.len() == 0 {
    } else if s[0] == 0 {
    } else {
        let tail = s.subrange(1, s.len() as int);
        assert forall|j: int| 0 <= j < i - 1 implies tail[j] != 0 by {
            assert(s[j + 1] != 0);
        }
        lemma_cstr_len_characterization(tail, i - 1);
    }
}

/// The symlink region of a block: the bytes from offset 24 up to 200 bytes
/// before the end of the block (clipped to the buffer).
pub open spec fn spec_symlink_region(s: Seq<u8>, block_size: int) -> Seq<u8> {
    let end0 = if block_size >= 200 {
        block_size - 200
    } else {
        0
    };
    let end = if end0 <= s.len() {
        end0
    } else {
        s.len() as int
    };
    if end <= 24 {
        Seq::empty()
    } else {
        s.subrange(24, end)
    }
}

/// The raw symlink target of a block: the null-terminated prefix of the
/// symlink region.
pub open spec fn spec_symlink_target(s: Seq<u8>, block_size: int) -> Seq<u8> {
    let region = spec_symlink_region(s, block_size);
    region.subrange(0, spec_cstr_len(region))
}

/// Relies on memchr::memchr: the index of the first occurrence of `needle`
/// in `haystack`, or None when the byte does not occur.
#[verifier::external_body]
fn find_byte(needle: u8, haystack: &[u8]) -> (r: Option<usize>)
    ensures
        match r {
            Some(i) => i < haystack@.len() && haystack@[i as int] == needle && forall|j: int|
                0 <= j < i ==> haystack@[j] != needle,
            None => forall|j: int| 0 <= j < haystack@.len() ==> haystack@[j] != needle,
        },
{
    memchr::memchr(needle, haystack)
}

proof fn lemma_adjust_prefix(s: Seq<u8>, k: int)
    requires
        0 <= k <= s.len(),
    ensures
        spec_colon_adjusted(s).subrange(0, k) == spec_colon_adjusted(s.subrange(0, k)),
{
    if k == 0 {
        assert(spec_colon_adjusted(s).subrange(0, 0) =~= spec_colon_adjusted(s.subrange(0, 0)));
    } else if s.len() > 0 && s[0] == 58 {
        assert(spec_colon_adjusted(s).subrange(0, k) =~= spec_colon_adjusted(s.subrange(0, k)));
    } else {
        assert(spec_colon_adjusted(s).subrange(0, k) =~= spec_colon_adjusted(s.subrange(0, k)));
    }
}

/// Convert Latin-1 bytes to UTF-8, replacing a leading `:` with `/`.
///
/// Writes into `out` from the start and returns the number of bytes
/// written. When `out` cannot hold another (possibly two-byte) encoding the
/// conversion stops, so what is written is always the full transcoding of
/// some prefix of the input; a buffer of twice the input length always
/// receives the whole transcoding.
pub fn latin1_to_utf8_symlink(latin1: &[u8], out: &mut [u8]) -> (r: usize)
    ensures
        final(out)@.len() == old(out)@.len(),
        r <= final(out)@.len(),
        forall|i: int| r <= i < final(out)@.len() ==> final(out)@[i] == old(out)@[i],
        // What is written is the full transcoding of a prefix of the
        // input, and the conversion stops only when the next byte's
        // encoding does not fit in the buffer.
        exists|k: int|
            0 <= k <= latin1@.len() && final(out)@.subrange(0, r as int) == spec_symlink_transcode(
                latin1@.subrange(0, k),
            ) && (k < latin1@.len() ==> r + spec_latin1_utf8(
                spec_colon_adjusted(latin1@)[k],
            ).len() > old(out)@.len()),
        2 * latin1@.len() <= old(out)@.len() ==> final(out)@.subrange(0, r as int)
            == spec_symlink_transcode(latin1@),
{
    let ghost adj = spec_colon_adjusted(latin1@);
    let mut out_pos: usize = 0;
    let mut i: usize = 0;
    let mut fits: bool = true;
    while i < latin1.len() && fits
        invariant
            out@.len() == old(out)@.len(),
            i <= latin1@.len(),
            out_pos <= out@.len(),
            out_pos <= 2 * i,
            adj == spec_colon_adjusted(latin1@),
            adj.len() == latin1@.len(),
            forall|j: int| out_pos <= j < out@.len() ==> out@[j] == old(out)@[j],
            out@.subrange(0, out_pos as int) == spec_latin1_to_utf8(adj.subrange(0, i as int)),
            2 * latin1@.len() <= old(out)@.len() ==> fits,
            !fits ==> i < adj.len() && out_pos + spec_latin1_utf8(adj[i as int]).len()
                > out@.len(),
        decreases latin1@.len() - i + (if fits { 1int } else { 0int }),
    {
        let b = latin1[i];
        let byte: u8 = if i == 0 && b == 58 {
            47
        } else {
            b
        };
        proof {
            assert(adj[i as int] == byte);
        }
        if byte < 0x80 {
            if out_pos >= out.len() {
                fits = false;
            } else {
                out[out_pos] = byte;
                proof {
                    assert(adj.subrange(0, i + 1).drop_last() =~= adj.subrange(0, i as int));
                    assert(adj.subrange(0, i + 1).last() == adj[i as int]);
                    assert(out@.subrange(0, out_pos + 1) =~= out@.subrange(0, out_pos as int)
                        + spec_latin1_utf8(adj[i as int]));
                }
                out_pos += 1;
                i += 1;
            }
        } else {
            if out.len() - out_pos < 2 {
                fits = false;
            } else {
                out[out_pos] = 0xC0 | (byte >> 6);
                out[out_pos + 1] = 0x80 | (byte & 0x3F);
                proof {
                    assert(adj.subrange(0, i + 1).drop_last() =~= adj.subrange(0, i as int));
                    assert(adj.subrange(0, i + 1).last() == adj[i as int]);
                    assert(out@.subrange(0, out_pos + 2) =~= out@.subrange(0, out_pos as int)
                        + spec_latin1_utf8(adj[i as int]));
                }
                out_pos += 2;
                i += 1;
            }
        }
    }
    proof {
        lemma_adjust_prefix(latin1@, i as int);
        assert(out@.subrange(0, out_pos as int) == spec_symlink_transcode(
            latin1@.subrange(0, i as int),
        ));
        if i == latin1@.len() {
            assert(latin1@.subrange(0, i as int) =~= latin1@);
        } else {
            assert(out_pos + spec_latin1_utf8(spec_colon_adjusted(latin1@)[i as int]).len()
                > out@.len());
        }
    }
    out_pos
}

/// Read a symlink target from an entry-block buffer with a given block
/// size.
///
/// The target is the null-terminated Latin-1 string at offset 24, bounded
/// by the tail-anchored header region; it is transcoded to UTF-8 into
/// `out`, and the number of bytes written is returned.
pub fn read_symlink_target_with_block_size(buf: &[u8], block_size: usize, out: &mut [u8]) -> (r:
    usize)
    ensures
        final(out)@.len() == old(out)@.len(),
        r <= final(out)@.len(),
        forall|i: int| r <= i < final(out)@.len() ==> final(out)@[i] == old(out)@[i],
        2 * spec_symlink_target(buf@, block_size as int).len() <= old(out)@.len() ==> final(out)@.subrange(0, r as int) == spec_symlink_transcode(
            spec_symlink_target(buf@, block_size as int),
        ),
        // In general what is written is the full transcoding of a prefix
        // of the target, cut only where the next encoding does not fit.
        exists|k: int|
            0 <= k <= spec_symlink_target(buf@, block_size as int).len() && final(out)@.subrange(
                0,
                r as int,
            ) == spec_symlink_transcode(
                spec_symlink_target(buf@, block_size as int).subrange(0, k),
            ) && (k < spec_symlink_target(buf@, block_size as int).len() ==> r + spec_latin1_utf8(
                spec_colon_adjusted(spec_symlink_target(buf@, block_size as int))[k],
            ).len() > old(out)@.len()),
{
    let ghost target = spec_symlink_target(buf@, block_size as int);
    let symlink_start = SYMLINK_OFFSET;
    let symlink_end = if block_size >= FILE_LOCATION {
        block_size - FILE_LOCATION
    } else {
        0
    };
    if symlink_start >= symlink_end || symlink_start >= buf.len() {
        proof {
            assert(spec_symlink_region(buf@, block_size as int) =~= Seq::<u8>::empty());
            assert(target =~= Seq::<u8>::empty());
            assert(target.subrange(0, 0) =~= target);
            assert(out@.subrange(0, 0) =~= spec_symlink_transcode(target.subrange(0, 0)));
        }
        return 0;
    }
    let symlink_end = if symlink_end <= buf.len() {
        symlink_end
    } else {
        buf.len()
    };
    let region = &buf[symlink_start..symlink_end];
    proof {
        assert(region@ =~= spec_symlink_region(buf@, block_size as int));
    }
    let len = match find_byte(0, region) {
        Some(idx) => idx,
        None => region.len(),
    };
    proof {
        lemma_cstr_len_characterization(region@, len as int);
    }
    let target_bytes = &region[0..len];
    proof {
        assert(target_bytes@ =~= target);
    }
    latin1_to_utf8_symlink(target_bytes, out)
}

/// Read a symlink target from a standard 512-byte entry block.
pub fn read_symlink_target(buf: &[u8; BLOCK_SIZE], out: &mut [u8]) -> (r: usize)
    ensures
        final(out)@.len() == old(out)@.len(),
        r <= final(out)@.len(),
        forall|i: int| r <= i < final(out)@.len() ==> final(out)@[i] == old(out)@[i],
        2 * spec_symlink_target(buf@, BLOCK_SIZE as int).len() <= old(out)@.len() ==> final(out)@.subrange(0, r as int) == spec_symlink_transcode(
            spec_symlink_target(buf@, BLOCK_SIZE as int),
        ),
        exists|k: int|
            0 <= k <= spec_symlink_target(buf@, BLOCK_SIZE as int).len() && final(out)@.subrange(
                0,
                r as int,
            ) == spec_symlink_transcode(
                spec_symlink_target(buf@, BLOCK_SIZE as int).subrange(0, k),
            ) && (k < spec_symlink_target(buf@, BLOCK_SIZE as int).len() ==> r + spec_latin1_utf8(
                spec_colon_adjusted(spec_symlink_target(buf@, BLOCK_SIZE as int))[k],
            ).len() > old(out)@.len()),
{
    read_symlink_target_with_block_size(buf.as_slice(), BLOCK_SIZE, out)
}

/// Calculate the maximum UTF-8 length for a Latin-1 string: each byte can
/// expand to at most 2 UTF-8 bytes.
pub fn max_utf8_len(latin1_len: usize) -> (r: usize)
    requires
        2 * latin1_len <= usize::MAX,
    ensures
        r == 2 * latin1_len,
{
    latin1_len * 2
}

} // verus!
