//! CRC-16 checksums over byte ranges.
//!
//! The cartridge format checks its header, logo and secure area with the
//! CRC-16 variant used by the console's BIOS: polynomial `0xA001`
//! (reflected), initial value `0xFFFF`, no final XOR.

use vstd::prelude::*;

verus! {

/// One shift step of the CRC-16 bit loop.
pub open spec fn crc16_shift(c: u16) -> u16 {
    if c & 1 == 1 {
        (c >> 1) ^ 0xA001
    } else {
        c >> 1
    }
}

/// `n` shift steps applied to `c`.
pub open spec fn crc16_shifts(c: u16, n: nat) -> u16
    decreases n,
{
    if n == 0 {
        c
    } else {
        crc16_shifts(crc16_shift(c), (n - 1) as nat)
    }
}

/// Folds one byte into a running CRC-16 value.
pub open spec fn crc16_update(c: u16, b: u8) -> u16 {
    crc16_shifts(c ^ (b as u16), 8)
}

/// The CRC-16 of a byte sequence, bytes folded in order from `0xFFFF`.
pub open spec fn crc16_seq(s: Seq<u8>) -> u16
    decreases s.len(),
{
    if s.len() == 0 {
        0xFFFF
    } else {
        crc16_update(crc16_seq(s.drop_last()), s.last())
    }
}

/// The CRC-16 of `data[start..end]`.
pub fn crc16_range(data: &Vec<u8>, start: usize, end: usize) -> (r: u16)
    requires
        start <= end <= data.len(),
    ensures
        r == crc16_seq(data@.subrange(start as int, end as int)),
{
    let mut c: u16 = 0xFFFF;
    let mut i: usize = start;
    proof {
        assert(data@.subrange(start as int, start as int) =~= Seq::<u8>::empty());
    }
    while i < end
        invariant
            start <= i <= end <= data.len(),
            c == crc16_seq(data@.subrange(start as int, i as int)),
        decreases end - i,
    {
        c = c ^ (data[i] as u16);
        let mut k: usize = 0;
        let ghost c0 = c;
        while k < 8
            invariant
                k <= 8,
                c == crc16_shifts(c0, k as nat),
            decreases 8 - k,
        {
            proof {
                assert(crc16_shifts(c0, (k + 1) as nat) == crc16_shift(crc16_shifts(c0, k as nat)))
                    by {
                    lemma_crc16_shifts_unfold(c0, k as nat);
                }
            }
            if c & 1 == 1 {
                c = (c >> 1) ^ 0xA001;
            } else {
                c = c >> 1;
            }
            k += 1;
        }
        proof {
            assert(data@.subrange(start as int, i + 1).drop_last() =~= data@.subrange(
                start as int,
                i as int,
            ));
            assert(data@.subrange(start as int, i + 1).last() == data@[i as int]);
        }
        i += 1;
    }
    c
}

/// The CRC-16 of the whole of `data`.
pub fn crc16(data: &Vec<u8>) -> (r: u16)
    ensures
        r == crc16_seq(data@),
{
    let r = crc16_range(data, 0, data.len());
    proof {
        assert(data@.subrange(0, data@.len() as int) =~= data@);
    }
    r
}

/// Shift steps peel off at the outside: doing `n + 1` steps is one step
/// after `n`.
proof fn lemma_crc16_shifts_unfold(c: u16, n: nat)
    ensures
        crc16_shifts(c, n + 1) == crc16_shift(crc16_shifts(c, n)),
    decreases n,
{
    reveal_with_fuel(crc16_shifts, 2);
    if n > 0 {
        lemma_crc16_shifts_unfold(crc16_shift(c), (n - 1) as nat);
    }
}

} // verus!
