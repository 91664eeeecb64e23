//! Little-endian views of byte buffers.
//!
//! Every multi-byte field of the cartridge header and banner is stored
//! little-endian; these helpers read and write such fields with exact
//! byte-level contracts.

use vstd::prelude::*;

verus! {

/// The 16-bit little-endian word stored at `off` in `s`.
pub open spec fn word16(s: Seq<u8>, off: int) -> u16
    recommends
        0 <= off,
        off + 2 <= s.len(),
{
    (s[off] as u16) | ((s[off + 1] as u16) << 8)
}

/// The 32-bit little-endian word stored at `off` in `s`.
pub open spec fn word32(s: Seq<u8>, off: int) -> u32
    recommends
        0 <= off,
        off + 4 <= s.len(),
{
    (s[off] as u32) | ((s[off + 1] as u32) << 8) | ((s[off + 2] as u32) << 16) | ((s[off
        + 3] as u32) << 24)
}

/// The 64-bit little-endian word stored at `off` in `s`.
pub open spec fn word64(s: Seq<u8>, off: int) -> u64
    recommends
        0 <= off,
        off + 8 <= s.len(),
{
    (word32(s, off) as u64) | ((word32(s, off + 4) as u64) << 32)
}

/// Byte `k` (0 = least significant) of the little-endian encoding of `w`.
pub open spec fn byte32(w: u32, k: int) -> u8
    recommends
        0 <= k < 4,
{
    ((w >> (8 * k)) & 0xFF) as u8
}

/// The 4-byte little-endian encoding of `w`.
pub open spec fn le32_bytes(w: u32) -> Seq<u8> {
    seq![byte32(w, 0), byte32(w, 1), byte32(w, 2), byte32(w, 3)]
}

/// Reads the 16-bit little-endian word at `off`.
pub fn read_u16(data: &Vec<u8>, off: usize) -> (r: u16)
    requires
        off + 2 <= data.len(),
    ensures
        r == word16(data@, off as int),
{
    (data[off] as u16) | ((data[off + 1] as u16) << 8)
}

/// Reads the 32-bit little-endian word at `off`.
pub fn read_u32(data: &Vec<u8>, off: usize) -> (r: u32)
    requires
        off + 4 <= data.len(),
    ensures
        r == word32(data@, off as int),
{
    (data[off] as u32) | ((data[off + 1] as u32) << 8) | ((data[off + 2] as u32) << 16) | ((data[off
        + 3] as u32) << 24)
}

/// Reads the 64-bit little-endian word at `off`.
pub fn read_u64(data: &Vec<u8>, off: usize) -> (r: u64)
    requires
        off + 8 <= data.len(),
    ensures
        r == word64(data@, off as int),
{
    let lo = read_u32(data, off);
    let hi = read_u32(data, off + 4);
    (lo as u64) | ((hi as u64) << 32)
}

/// Writes `w` at `off` in little-endian order; no other byte changes.
pub fn write_u32(data: &mut Vec<u8>, off: usize, w: u32)
    requires
        off + 4 <= old(data).len(),
    ensures
        final(data)@.len() == old(data)@.len(),
        forall|j: int|
            0 <= j < old(data)@.len() && !(off <= j < off + 4) ==> final(data)@[j] == old(
                data,
            )@[j],
        forall|k: int| 0 <= k < 4 ==> final(data)@[off + k] == byte32(w, k),
{
    proof {
        assert((w >> 0) == w && (w & 0xFF) < 256 && ((w >> 8) & 0xFF) < 256 && ((w >> 16) & 0xFF)
            < 256 && ((w >> 24) & 0xFF) < 256) by (bit_vector);
    }
    data[off] = (w & 0xFF) as u8;
    data[off + 1] = ((w >> 8) & 0xFF) as u8;
    data[off + 2] = ((w >> 16) & 0xFF) as u8;
    data[off + 3] = ((w >> 24) & 0xFF) as u8;
}

/// Reading back the little-endian encoding of a word yields the word.
pub proof fn lemma_word32_roundtrip(w: u32)
    ensures
        (byte32(w, 0) as u32) | ((byte32(w, 1) as u32) << 8) | ((byte32(w, 2) as u32) << 16) | ((
        byte32(w, 3) as u32) << 24) == w,
{
    assert((((w >> (8 * 0)) & 0xFF) as u8 as u32) | ((((w >> (8 * 1)) & 0xFF) as u8 as u32) << 8)
        | ((((w >> (8 * 2)) & 0xFF) as u8 as u32) << 16) | ((((w >> (8 * 3)) & 0xFF) as u8
        as u32) << 24) == w) by (bit_vector);
}

} // verus!
