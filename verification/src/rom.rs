//! Loading a complete ROM image.
//!
//! The loader pads the raw bytes to a power-of-two buffer, decodes the
//! header and (when present) the banner, resolves the cartridge's ROM
//! parameters, synthesises the chip ID, and repairs the secure area when
//! a raw dump masquerades as destroyed-ID cartridge data.

use vstd::prelude::*;

use crate::banner::{banner_matches, NdsBanner, BANNER_SIZE};
use crate::crc::{crc16_range, crc16_seq};
use crate::header::{spec_has_secure_area, spec_is_homebrew, NdsHeader};
use crate::key1::{enc_block, init2_spec, init3_spec, Key1};
use crate::lebytes::word32;
use crate::params::{sram_memory_kind, table_lookup, Entry, MemoryKind, RomParamsTable, SramKind};

verus! {

/// Whether `n` is a power of two.
pub open spec fn is_pow2(n: nat) -> bool
    decreases n,
{
    if n == 0 {
        false
    } else if n == 1 {
        true
    } else {
        n % 2 == 0 && is_pow2(n / 2)
    }
}

/// Doubles `size` until it reaches `len`.
pub open spec fn grow_pow2(size: nat, len: nat) -> nat
    decreases (if len >= size { (len - size) as nat } else { 0 }),
{
    if size == 0 {
        0
    } else if size >= len {
        size
    } else {
        grow_pow2(2 * size, len)
    }
}

/// The length of the buffer allocated for a ROM of `len` raw bytes: the
/// smallest power of two at least `max(512, len)`.
pub open spec fn rom_buffer_len(len: nat) -> nat {
    grow_pow2(512, len)
}

/// `grow_pow2` yields the smallest power of two at least `max(size, len)`.
proof fn lemma_grow_pow2(size: nat, len: nat)
    requires
        is_pow2(size),
    ensures
        grow_pow2(size, len) >= size,
        grow_pow2(size, len) >= len,
        is_pow2(grow_pow2(size, len)),
        grow_pow2(size, len) == size || grow_pow2(size, len) / 2 < len,
    decreases (if len >= size { (len - size) as nat } else { 0 }),
{
    if size != 0 && size < len {
        assert(is_pow2(2 * size)) by {
            assert((2 * size) % 2 == 0 && (2 * size) / 2 == size);
        }
        lemma_grow_pow2(2 * size, len);
        let r = grow_pow2(2 * size, len);
        if r == 2 * size {
            assert(r / 2 == size < len);
        }
    }
}

/// 512 is a power of two.
proof fn lemma_pow2_512()
    ensures
        is_pow2(512nat),
{
    assert(is_pow2(1nat));
    assert(is_pow2(2nat));
    assert(is_pow2(4nat));
    assert(is_pow2(8nat));
    assert(is_pow2(16nat));
    assert(is_pow2(32nat));
    assert(is_pow2(64nat));
    assert(is_pow2(128nat));
    assert(is_pow2(256nat));
    assert(is_pow2(512nat));
}

/// The buffer length is a power of two, at least 512, and at least the
/// raw length.
pub proof fn lemma_rom_buffer_len(len: nat)
    ensures
        rom_buffer_len(len) >= 512,
        rom_buffer_len(len) >= len,
        is_pow2(rom_buffer_len(len)),
        rom_buffer_len(len) == 512 || rom_buffer_len(len) / 2 < len,
{
    lemma_pow2_512();
    lemma_grow_pow2(512, len);
}

/// Of two powers of two, the larger is at least the double of the
/// smaller.
proof fn lemma_pow2_double(a: nat, b: nat)
    requires
        is_pow2(a),
        is_pow2(b),
        a < b,
    ensures
        2 * a <= b,
    decreases b,
{
    if a == 1 {
        assert(b % 2 == 0 && b >= 2);
    } else {
        assert(a % 2 == 0 && is_pow2(a / 2));
        assert(b % 2 == 0 && is_pow2(b / 2));
        assert(a == 2 * (a / 2) && b == 2 * (b / 2));
        lemma_pow2_double(a / 2, b / 2);
    }
}

/// No smaller power of two than `rom_buffer_len(len)` reaches
/// `max(512, len)`: the buffer length is the smallest.
pub proof fn lemma_rom_buffer_len_smallest(len: nat, m: nat)
    requires
        is_pow2(m),
        m >= 512,
        m >= len,
    ensures
        m >= rom_buffer_len(len),
{
    lemma_rom_buffer_len(len);
    let big = rom_buffer_len(len);
    if m < big {
        lemma_pow2_double(m, big);
        assert(m <= big / 2);
    }
}

/// `bytes` padded with zero bytes to `total` length.
pub open spec fn padded(bytes: Seq<u8>, total: nat) -> Seq<u8>
    recommends
        total >= bytes.len(),
{
    bytes + Seq::new((total - bytes.len()) as nat, |i: int| 0u8)
}

/// The zero-padded power-of-two buffer that loading builds from `bytes`
/// before any repair.
pub open spec fn spec_pre(bytes: Seq<u8>) -> Seq<u8> {
    padded(bytes, rom_buffer_len(bytes.len()))
}

/// The destroyed-ID sentinel: the little-endian bytes of `0xE7FFDEFF`.
pub open spec fn destroyed_id() -> Seq<u8> {
    seq![0xFFu8, 0xDEu8, 0xFFu8, 0xE7u8]
}

/// The raw secure-area tag `"encryObj"`.
pub open spec fn encry_obj() -> Seq<u8> {
    seq![0x65u8, 0x6Eu8, 0x63u8, 0x72u8, 0x79u8, 0x4Fu8, 0x62u8, 0x6Au8]
}

/// Repair fires when the secure area at `off` opens with the
/// destroyed-ID sentinel but does not carry it at offset `0x10`: the mark
/// of a raw dump masquerading as destroyed-ID cartridge data.
pub open spec fn repair_trigger(s: Seq<u8>, off: int) -> bool
    recommends
        0 <= off,
        off + 0x14 <= s.len(),
{
    s.subrange(off, off + 4) == destroyed_id() && s.subrange(off + 0x10, off + 0x14)
        != destroyed_id()
}

/// Each 8-byte block of `region` encrypted independently with the cipher
/// state `s`.
pub open spec fn ecb_encrypt(s: Seq<u32>, region: Seq<u8>) -> Seq<u8>
    recommends
        region.len() % 8 == 0,
{
    Seq::new(
        region.len(),
        |i: int| enc_block(s, region.subrange(8 * (i / 8), 8 * (i / 8) + 8))[i % 8],
    )
}

/// `ecb_encrypt` works block by block: byte `j` of the result is byte
/// `j % 8` of the encryption of the block that holds byte `j`.
pub proof fn lemma_ecb_encrypt_index(s: Seq<u32>, region: Seq<u8>, j: int)
    requires
        0 <= j < region.len(),
    ensures
        ecb_encrypt(s, region).len() == region.len(),
        ecb_encrypt(s, region)[j] == enc_block(
            s,
            region.subrange(8 * (j / 8), 8 * (j / 8) + 8),
        )[j % 8],
{
}

/// The first `0x800` bytes of the secure area, repaired: the tag
/// `"encryObj"` written over the first 8 bytes, the whole prefix
/// encrypted block by block at key level 3, and the first block
/// encrypted once more at key level 2.
pub open spec fn repaired_prefix(pre: Seq<u8>, off: int, code: u32) -> Seq<u8>
    recommends
        0 <= off,
        off + 0x800 <= pre.len(),
{
    let tagged = encry_obj() + pre.subrange(off + 8, off + 0x800);
    let stage1 = ecb_encrypt(init3_spec(code), tagged);
    enc_block(init2_spec(code), stage1.subrange(0, 8)) + stage1.subrange(8, 0x800)
}

/// The whole buffer after secure-area repair.
pub open spec fn repaired_rom(pre: Seq<u8>, off: int, code: u32) -> Seq<u8>
    recommends
        0 <= off,
        off + 0x800 <= pre.len(),
{
    pre.take(off) + repaired_prefix(pre, off, code) + pre.skip(off + 0x800)
}

/// The buffer that loading `bytes` yields: the padded buffer, its secure
/// area repaired exactly when the image has one and the trigger fires.
pub open spec fn loaded_rom(pre: Seq<u8>) -> Seq<u8>
    recommends
        loadable(pre),
{
    let off = word32(pre, 0x20) as int;
    if spec_has_secure_area(word32(pre, 0x20)) && repair_trigger(pre, off) {
        repaired_rom(pre, off, word32(pre, 0x00C))
    } else {
        pre
    }
}

/// The ROM parameters resolved for the buffer `pre`: the table row for
/// the game code, or the fallback of the allocated size with 64KB EEPROM
/// assumed for commercial titles and no SRAM for homebrew.
pub open spec fn resolved_params(rows: Seq<(u32, Entry)>, pre: Seq<u8>, total: nat) -> Entry {
    match table_lookup(rows, word32(pre, 0x00C)) {
        Some(e) => e,
        None => Entry {
            rom_size: (total % 0x100000000) as u32,
            sram_kind: if spec_is_homebrew(word32(pre, 0x20), pre.subrange(0x00C, 0x010)) {
                SramKind::NoSram
            } else {
                SramKind::Eeprom64KB
            },
        },
    }
}

/// The synthetic chip ID: manufacturer byte `0xC2`, a size field at bits
/// 15:8 derived from the buffer length, bit 27 for DSi titles, the NAND
/// region `0x48000000` for NAND-backed saves, and bit 31 for ROMs of
/// 128MiB and larger.
pub open spec fn chip_id_spec(total: nat, params: Entry, dsi: bool) -> u32 {
    let t = (total % 0x100000000) as u32;
    let base: u32 = 0xC2;
    let with_size = if total >= 0x10000000 {
        base | (((0x100 - (t >> 28)) as u32) << 8)
    } else if 0x100000 <= total && total <= 0x8000000 {
        base | ((((t >> 20) as u32 - 1) as u32) << 8)
    } else {
        base
    };
    let with_dsi = if dsi {
        with_size | 0x08000000u32
    } else {
        with_size
    };
    if sram_memory_kind(params.sram_kind) == MemoryKind::Nand {
        with_dsi | 0x48000000u32
    } else if params.rom_size >= 0x8000000 {
        with_dsi | 0x80000000u32
    } else {
        with_dsi
    }
}

/// What loading asks of the padded buffer: a banner that fits, and a
/// secure area large enough to inspect and, when the trigger fires, to
/// repair in place.
pub open spec fn loadable(pre: Seq<u8>) -> bool {
    let off = word32(pre, 0x20) as int;
    &&& pre.len() >= 512
    &&& (word32(pre, 0x068) != 0 ==> word32(pre, 0x068) + BANNER_SIZE <= pre.len())
    &&& (spec_has_secure_area(word32(pre, 0x20)) ==> {
        &&& pre.len() >= 0x8000
        &&& off + 0x14 <= 0x8000
        &&& (repair_trigger(pre, off) ==> off + 0x800 <= 0x8000)
    })
}

/// What loading asks of the raw bytes.
pub open spec fn load_precond(bytes: Seq<u8>) -> bool {
    &&& bytes.len() <= usize::MAX / 2 + 1
    &&& loadable(spec_pre(bytes))
}

/// A loaded NDS ROM image.
#[derive(Debug)]
pub struct NdsRom {
    /// The owned power-of-two buffer, secure area repaired.
    pub rom: Vec<u8>,
    /// The decoded header.
    pub header: NdsHeader,
    /// The decoded banner, when the header points at one.
    pub banner: Option<NdsBanner>,
    /// The resolved ROM parameters.
    pub params: Entry,
    /// The synthetic 32-bit chip ID.
    pub chip_id: u32,
}

impl NdsRom {
    /// A well-formed image: the header decodes its first 512 bytes, the
    /// buffer length is a power of two, and a secure area lies within
    /// the buffer.
    pub open spec fn wf(&self) -> bool {
        &&& self.header.wf()
        &&& self.rom@.len() >= 512
        &&& is_pow2(self.rom@.len())
        &&& self.header.raw@ == self.rom@.subrange(0, 512)
        &&& spec_has_secure_area(self.header.arm9_rom_offset) ==> self.rom@.len() >= 0x8000
    }

    /// Loads a ROM image from raw file bytes.
    #[verifier::rlimit(100)]
    pub fn load(bytes: &Vec<u8>, params: &RomParamsTable) -> (r: NdsRom)
        requires
            load_precond(bytes@),
        ensures
            r.wf(),
            r.rom@.len() == rom_buffer_len(bytes@.len()),
            r.rom@ == loaded_rom(spec_pre(bytes@)),
            r.header.raw@ == spec_pre(bytes@).subrange(0, 512),
            r.banner is Some <==> r.header.banner_offset != 0,
            r.header.banner_offset != 0 ==> banner_matches(
                r.banner.unwrap(),
                spec_pre(bytes@),
                r.header.banner_offset as int,
            ),
            r.params == resolved_params(params@, spec_pre(bytes@), rom_buffer_len(bytes@.len())),
            r.chip_id == chip_id_spec(
                rom_buffer_len(bytes@.len()),
                r.params,
                r.header.unit_code & 0x02 != 0,
            ),
    {
        let rom_size = round_buffer_len(bytes.len());
        let mut rom = build_buffer(bytes, rom_size);
        let ghost pre = rom@;
        proof {
            lemma_rom_buffer_len(bytes@.len());
        }

        let header = NdsHeader::read(&rom);
        proof {
            lemma_prefix_words(pre);
            assert(header.game_code.buf@ =~= pre.subrange(0x00C, 0x010));
        }
        let banner = if header.banner_offset == 0 {
            None
        } else {
            Some(NdsBanner::read(&rom, header.banner_offset as usize))
        };

        let game_code = header.game_code();
        proof {
            assert(word32(header.game_code.buf@, 0) == word32(pre, 0x00C)) by {
                assert(header.game_code.buf@[0] == pre[0x00C]);
                assert(header.game_code.buf@[1] == pre[0x00D]);
                assert(header.game_code.buf@[2] == pre[0x00E]);
                assert(header.game_code.buf@[3] == pre[0x00F]);
            }
        }

        let params_resolved = match params.get(game_code) {
            Some(e) => e,
            None => {
                let sram_kind = if header.is_homebrew() {
                    SramKind::NoSram
                } else {
                    SramKind::Eeprom64KB
                };
                Entry { rom_size: ((rom_size as u64) % 0x100000000) as u32, sram_kind }
            },
        };

        let chip_id = synth_chip_id(rom_size, params_resolved, header.is_dsi());

        if header.has_secure_area() {
            let off = header.arm9_rom_offset as usize;
            let triggered = rom[off] == 0xFF && rom[off + 1] == 0xDE && rom[off + 2] == 0xFF
                && rom[off + 3] == 0xE7 && !(rom[off + 0x10] == 0xFF && rom[off + 0x11] == 0xDE
                && rom[off + 0x12] == 0xFF && rom[off + 0x13] == 0xE7);
            proof {
                lemma_sentinel_check(pre, off as int);
                assert(triggered == repair_trigger(pre, off as int));
            }
            if triggered {
                repair_secure_area(&mut rom, off, game_code);
                proof {
                    assert(rom@ == loaded_rom(pre));
                }
            }
        }
        let r = NdsRom { rom, header, banner, params: params_resolved, chip_id };
        proof {
            assert(r.header.raw@ =~= r.rom@.subrange(0, 512));
        }
        r
    }

    /// The secure-area bytes, `arm9_rom_offset..0x8000`.
    pub fn secure_area(&self) -> (r: &[u8])
        requires
            self.wf(),
            spec_has_secure_area(self.header.arm9_rom_offset),
        ensures
            r@ == self.rom@.subrange(self.header.arm9_rom_offset as int, 0x8000),
    {
        &self.rom.as_slice()[(self.header.arm9_rom_offset as usize)..0x8000]
    }

    /// The CRC-16 of the secure area, or `None` when the image has none.
    pub fn compute_secure_area_crc16(&self) -> (r: Option<u16>)
        requires
            self.wf(),
        ensures
            r == if spec_has_secure_area(self.header.arm9_rom_offset) {
                Some(
                    crc16_seq(self.rom@.subrange(self.header.arm9_rom_offset as int, 0x8000)),
                )
            } else {
                None::<u16>
            },
    {
        if self.header.has_secure_area() {
            Some(crc16_range(&self.rom, self.header.arm9_rom_offset as usize, 0x8000))
        } else {
            None
        }
    }
}

/// The four-byte reads of the sentinel check match the subrange
/// comparisons of `repair_trigger`.
proof fn lemma_sentinel_check(s: Seq<u8>, off: int)
    requires
        0 <= off,
        off + 0x14 <= s.len(),
    ensures
        (s.subrange(off, off + 4) == destroyed_id()) == (s[off] == 0xFF && s[off + 1] == 0xDE
            && s[off + 2] == 0xFF && s[off + 3] == 0xE7),
        (s.subrange(off + 0x10, off + 0x14) == destroyed_id()) == (s[off + 0x10] == 0xFF && s[off
            + 0x11] == 0xDE && s[off + 0x12] == 0xFF && s[off + 0x13] == 0xE7),
{
    if s[off] == 0xFF && s[off + 1] == 0xDE && s[off + 2] == 0xFF && s[off + 3] == 0xE7 {
        assert(s.subrange(off, off + 4) =~= destroyed_id());
    } else {
        assert(s.subrange(off, off + 4) != destroyed_id()) by {
            let d = destroyed_id();
            assert(d[0] == 0xFFu8 && d[1] == 0xDEu8 && d[2] == 0xFFu8 && d[3] == 0xE7u8);
            assert(s.subrange(off, off + 4)[0] == s[off]);
            assert(s.subrange(off, off + 4)[1] == s[off + 1]);
            assert(s.subrange(off, off + 4)[2] == s[off + 2]);
            assert(s.subrange(off, off + 4)[3] == s[off + 3]);
        }
    }
    if s[off + 0x10] == 0xFF && s[off + 0x11] == 0xDE && s[off + 0x12] == 0xFF && s[off + 0x13]
        == 0xE7 {
        assert(s.subrange(off + 0x10, off + 0x14) =~= destroyed_id());
    } else {
        assert(s.subrange(off + 0x10, off + 0x14) != destroyed_id()) by {
            let d = destroyed_id();
            assert(d[0] == 0xFFu8 && d[1] == 0xDEu8 && d[2] == 0xFFu8 && d[3] == 0xE7u8);
            assert(s.subrange(off + 0x10, off + 0x14)[0] == s[off + 0x10]);
            assert(s.subrange(off + 0x10, off + 0x14)[1] == s[off + 0x11]);
            assert(s.subrange(off + 0x10, off + 0x14)[2] == s[off + 0x12]);
            assert(s.subrange(off + 0x10, off + 0x14)[3] == s[off + 0x13]);
        }
    }
}

/// Words read from the 512-byte prefix of `s` agree with words read from
/// the prefix subrange.
proof fn lemma_prefix_words(s: Seq<u8>)
    requires
        s.len() >= 512,
    ensures
        forall|off: int|
            0 <= off && off + 4 <= 512 ==> word32(s.subrange(0, 512), off) == #[trigger] word32(
                s,
                off,
            ),
{
    assert forall|off: int|
        0 <= off && off + 4 <= 512 implies word32(s.subrange(0, 512), off) == #[trigger] word32(
        s,
        off,
    ) by {
        assert(s.subrange(0, 512)[off] == s[off]);
        assert(s.subrange(0, 512)[off + 1] == s[off + 1]);
        assert(s.subrange(0, 512)[off + 2] == s[off + 2]);
        assert(s.subrange(0, 512)[off + 3] == s[off + 3]);
    }
}

/// Rounds a raw length up to the power-of-two buffer length.
fn round_buffer_len(len: usize) -> (r: usize)
    requires
        len <= usize::MAX / 2 + 1,
    ensures
        r as nat == rom_buffer_len(len as nat),
        r >= 512,
        r >= len,
{
    proof {
        lemma_pow2_512();
        lemma_rom_buffer_len(len as nat);
    }
    let mut rom_size: usize = 512;
    while rom_size < len
        invariant
            len <= usize::MAX / 2 + 1,
            rom_size >= 512,
            is_pow2(rom_size as nat),
            rom_buffer_len(len as nat) == grow_pow2(rom_size as nat, len as nat),
        decreases 2 * len - rom_size,
    {
        proof {
            assert(is_pow2((2 * rom_size) as nat)) by {
                assert(((2 * rom_size) as nat) % 2 == 0 && ((2 * rom_size) as nat) / 2 == rom_size
                    as nat);
            }
        }
        rom_size = rom_size * 2;
    }
    proof {
        assert(grow_pow2(rom_size as nat, len as nat) == rom_size as nat);
    }
    rom_size
}

/// Copies `bytes` into a fresh zero-filled buffer of `total` bytes.
fn build_buffer(bytes: &Vec<u8>, total: usize) -> (rom: Vec<u8>)
    requires
        bytes.len() <= total,
    ensures
        rom@ == padded(bytes@, total as nat),
{
    let len = bytes.len();
    let mut rom: Vec<u8> = Vec::new();
    let mut i: usize = 0;
    while i < len
        invariant
            i <= len <= total,
            len == bytes@.len(),
            rom@ == bytes@.take(i as int),
        decreases len - i,
    {
        let b = bytes[i];
        rom.push(b);
        proof {
            assert(bytes@.take(i + 1) =~= bytes@.take(i as int).push(bytes@[i as int]));
        }
        i += 1;
    }
    proof {
        assert(bytes@.take(len as int) =~= bytes@);
    }
    while i < total
        invariant
            len <= i <= total,
            len == bytes@.len(),
            rom@.len() == i,
            rom@.take(len as int) == bytes@,
            forall|j: int| len <= j < i ==> rom@[j] == 0u8,
        decreases total - i,
    {
        rom.push(0u8);
        proof {
            assert(rom@.take(len as int) =~= bytes@);
        }
        i += 1;
    }
    proof {
        assert(rom@ =~= padded(bytes@, total as nat));
    }
    rom
}

/// Synthesises the chip ID from the buffer length, the resolved
/// parameters and the DSi flag.
fn synth_chip_id(rom_size: usize, params: Entry, dsi: bool) -> (r: u32)
    ensures
        r == chip_id_spec(rom_size as nat, params, dsi),
{
    let t: u32 = ((rom_size as u64) % 0x100000000) as u32;
    let mut card_id: u32 = 0xC2;
    if rom_size >= 0x10000000 {
        proof {
            assert((t >> 28) <= 0xF) by (bit_vector);
        }
        card_id = card_id | ((0x100 - (t >> 28)) << 8);
    } else if 0x100000 <= rom_size && rom_size <= 0x8000000 {
        proof {
            let tv = t;
            assert(tv >= 0x100000 ==> (tv >> 20) >= 1) by (bit_vector);
        }
        card_id = card_id | (((t >> 20) - 1) << 8);
    }
    if dsi {
        card_id = card_id | 0x08000000;
    }
    if params.sram_kind.memory_kind() == MemoryKind::Nand {
        card_id = card_id | 0x48000000;
    } else if params.rom_size >= 0x8000000 {
        card_id = card_id | 0x80000000;
    }
    card_id
}

/// Repairs the secure area at `off` in `data`: writes the raw tag, then
/// encrypts the first `0x800` bytes block by block at key level 3 and
/// the first block once more at key level 2.
#[verifier::loop_isolation(false)]
fn repair_secure_area(data: &mut Vec<u8>, off: usize, code: u32)
    requires
        off + 0x800 <= old(data).len(),
    ensures
        final(data)@ == repaired_rom(old(data)@, off as int, code),
{
    let ghost pre = old(data)@;
    let ghost tagged = encry_obj() + pre.subrange(off + 8, off + 0x800);
    let ghost stage1 = ecb_encrypt(init3_spec(code), tagged);
    proof {
        assert(tagged.len() == 0x800);
    }

    data[off] = 0x65;
    data[off + 1] = 0x6E;
    data[off + 2] = 0x63;
    data[off + 3] = 0x72;
    data[off + 4] = 0x79;
    data[off + 5] = 0x4F;
    data[off + 6] = 0x62;
    data[off + 7] = 0x6A;
    proof {
        assert forall|k: int| off <= k < off + 0x800 implies data@[k] == tagged[k - off] by {
            if k >= off + 8 {
                assert(tagged[k - off] == pre.subrange(off + 8, off + 0x800)[k - off - 8]);
            }
        }
    }

    let key3 = Key1::init3(code);
    let mut i: usize = 0;
    while i < 0x100
        invariant
            off + 0x800 <= data.len(),
            data@.len() == pre.len(),
            i <= 0x100,
            key3.wf(),
            key3@ == init3_spec(code),
            tagged.len() == 0x800,
            forall|k: int| off <= k < off + 8 * i ==> data@[k] == stage1[k - off],
            forall|k: int| off + 8 * i <= k < off + 0x800 ==> data@[k] == tagged[k - off],
            forall|k: int|
                0 <= k < pre.len() && !(off <= k < off + 0x800) ==> data@[k] == pre[k],
        decreases 0x100 - i,
    {
        let ghost before = data@;
        proof {
            assert forall|t: int| 0 <= t < 8 implies #[trigger] (before.subrange(
                off + 8 * i,
                off + 8 * i + 8,
            )[t]) == tagged.subrange(8 * (i as int), 8 * (i as int) + 8)[t] by {
                assert(before[off + 8 * (i as int) + t] == tagged[8 * (i as int) + t]);
            }
            assert(before.subrange(off + 8 * i, off + 8 * i + 8) =~= tagged.subrange(
                8 * (i as int),
                8 * (i as int) + 8,
            ));
        }
        key3.encrypt_block(data, off + 8 * i);
        proof {
            let b = 8 * (i as int);
            let s3 = init3_spec(code);
            assert(data@.subrange(off + b, off + b + 8) == enc_block(
                s3,
                before.subrange(off + b, off + b + 8),
            ));
            assert forall|k: int| off <= k < off + 8 * (i + 1) implies data@[k] == stage1[k
                - off] by {
                let j = k - off;
                if j < b {
                    assert(data@[k] == before[k]);
                    assert(before[k] == stage1[j]);
                } else {
                    assert(j / 8 == i as int && j % 8 == j - b) by (nonlinear_arith)
                        requires
                            b <= j < b + 8,
                            b == 8 * (i as int),
                    ;
                    assert(data@.subrange(off + b, off + b + 8)[j - b] == data@[k]);
                    assert(data@[k] == enc_block(s3, before.subrange(off + b, off + b + 8))[j
                        - b]);
                    assert(before.subrange(off + b, off + b + 8) == tagged.subrange(b, b + 8));
                    lemma_ecb_encrypt_index(s3, tagged, j);
                    assert(stage1[j] == enc_block(s3, tagged.subrange(8 * (j / 8), 8 * (j / 8)
                        + 8))[j % 8]);
                    assert(8 * (j / 8) == b);
                    assert(stage1[j] == enc_block(s3, tagged.subrange(b, b + 8))[j - b]);
                }
            }
        }
        i += 1;
    }

    let key2 = Key1::init2(code);
    let ghost before2 = data@;
    proof {
        assert forall|t: int| 0 <= t < 8 implies #[trigger] (before2.subrange(off as int, off
            + 8)[t]) == stage1.subrange(0, 8)[t] by {
            assert(before2[off + t] == stage1[t]);
        }
        assert(before2.subrange(off as int, off + 8) =~= stage1.subrange(0, 8));
    }
    key2.encrypt_block(data, off);
    proof {
        assert forall|k: int| 0 <= k < pre.len() implies data@[k] == repaired_rom(
            pre,
            off as int,
            code,
        )[k] by {
            let rr = repaired_rom(pre, off as int, code);
            let rp = repaired_prefix(pre, off as int, code);
            assert(rp.len() == 0x800);
            if k < off {
                assert(rr[k] == pre[k]);
            } else if k < off + 8 {
                assert(data@.subrange(off as int, off + 8)[k - off] == data@[k]);
                assert(rr[k] == rp[k - off]);
                assert(rp[k - off] == enc_block(init2_spec(code), stage1.subrange(0, 8))[k - off]);
            } else if k < off + 0x800 {
                assert(data@[k] == before2[k]);
                assert(rr[k] == rp[k - off]);
                assert(rp[k - off] == stage1.subrange(8, 0x800)[k - off - 8]);
            } else {
                assert(rr[k] == pre.skip(off + 0x800)[k - off - 0x800]);
            }
        }
        assert(data@ =~= repaired_rom(pre, off as int, code));
    }
}


/// For a 16MiB buffer whose save memory is not NAND, the chip ID's size
/// field at bits 15:8 reads 15, the size formula's encoding of 16MiB.
pub proof fn lemma_chip_id_size_field_16mib(params: Entry, dsi: bool)
    requires
        sram_memory_kind(params.sram_kind) != MemoryKind::Nand,
    ensures
        (chip_id_spec(0x1000000, params, dsi) >> 8) & 0xFF == 15,
{
    let t = (0x1000000nat % 0x100000000) as u32;
    assert(t == 0x1000000u32);
    assert((0x1000000u32 >> 20) == 16 && (0xC2u32 | (15u32 << 8)) == 0xFC2 && ((0xFC2u32
        >> 8) & 0xFF) == 15 && (((0xFC2u32 | 0x08000000) >> 8) & 0xFF) == 15 && (((0xFC2u32
        | 0x80000000) >> 8) & 0xFF) == 15 && ((((0xFC2u32 | 0x08000000) | 0x80000000) >> 8)
        & 0xFF) == 15) by (bit_vector);
}

/// For a NAND-backed title the chip ID carries the NAND region
/// `0x48000000`, and bit 31 stays clear.
pub proof fn lemma_chip_id_nand(total: nat, params: Entry, dsi: bool)
    requires
        sram_memory_kind(params.sram_kind) == MemoryKind::Nand,
    ensures
        chip_id_spec(total, params, dsi) & 0x48000000 == 0x48000000,
        chip_id_spec(total, params, dsi) & 0x80000000 == 0,
{
    let t = (total % 0x100000000) as u32;
    let size_word: u32 = if total >= 0x10000000 {
        ((0x100 - (t >> 28)) as u32) << 8
    } else if 0x100000 <= total && total <= 0x8000000 {
        (((t >> 20) as u32 - 1) as u32) << 8
    } else {
        0u32 << 8
    };
    let x: u32 = if total >= 0x10000000 {
        (0x100 - (t >> 28)) as u32
    } else if 0x100000 <= total && total <= 0x8000000 {
        ((t >> 20) as u32 - 1) as u32
    } else {
        0u32
    };
    assert((t >> 28) <= 0xF && (t >> 20) <= 0xFFF) by (bit_vector);
    if 0x100000 <= total && total <= 0x8000000 {
        assert(total % 0x100000000 == total);
        let tv = t;
        assert(tv >= 0x100000 ==> (tv >> 20) >= 1) by (bit_vector);
    }
    assert(x <= 0x1000);
    assert(size_word == x << 8);
    let base_or_size: u32 = if total >= 0x10000000 || (0x100000 <= total && total <= 0x8000000) {
        0xC2u32 | size_word
    } else {
        0xC2u32
    };
    assert(chip_id_spec(total, params, dsi) == (if dsi {
        base_or_size | 0x08000000u32
    } else {
        base_or_size
    }) | 0x48000000u32);
    let d: u32 = if dsi {
        0x08000000u32
    } else {
        0u32
    };
    let xv = x;
    let dv = d;
    assert(0xC2u32 | (0u32 << 8) == 0xC2) by (bit_vector);
    assert(base_or_size == 0xC2u32 | (xv << 8));
    let v: u32 = base_or_size | dv;
    let vv = v;
    assert((xv <= 0x1000 && (dv == 0 || dv == 0x08000000u32) && vv == (0xC2u32 | (xv << 8)) | dv)
        ==> ((vv | 0x48000000) & 0x48000000 == 0x48000000 && (vv | 0x48000000) & 0x80000000
        == 0)) by (bit_vector);
    assert(base_or_size | 0u32 == base_or_size) by (bit_vector);
    assert(chip_id_spec(total, params, dsi) == v | 0x48000000u32);
}

} // verus!
