//! The 512-byte cartridge header.
//!
//! The header is a fixed-offset little-endian record at the start of every
//! ROM image.  Parsing is a pure structural reinterpretation: any 512
//! bytes form a syntactically valid header, and all validation is deferred
//! to checksum comparisons and the loader's own checks.

use vstd::prelude::*;

use crate::ascii::Ascii;
use crate::crc::{crc16, crc16_range, crc16_seq};
use crate::lebytes::{read_u16, read_u32, read_u64, word16, word32, word64};

verus! {

/// The size of a header in bytes.
pub const HEADER_SIZE: usize = 512;

/// An NDS ROM header, decoded field by field from its 512 bytes.
///
/// The raw bytes are kept alongside the decoded fields so that the header
/// checksum, which runs over the undecoded record, stays computable.
#[derive(Clone, Debug)]
pub struct NdsHeader {
    /// The undecoded 512-byte record.
    pub raw: Vec<u8>,
    /// Game title: uppercase ASCII, padded with `0x00`.
    pub game_title: Ascii,
    /// Game code: uppercase ASCII, `NTR-{code}`; the last byte encodes
    /// the region.
    pub game_code: Ascii,
    /// Maker code: uppercase ASCII, eg. `01` is Nintendo.
    pub maker_code: Ascii,
    /// Unit code: bit 1 set means the title is DSi-capable.
    pub unit_code: u8,
    /// Device type.
    pub device_type: u8,
    /// Device capacity: chip size is `128KB << capacity`.
    pub device_capacity: u8,
    /// NDS region: `0x00` normal, `0x40` Korea, `0x80` China.
    pub nds_region: u8,
    /// ROM version, usually `0x00`.
    pub rom_version: u8,
    /// Autostart flags.
    pub autostart: u8,
    /// ARM9 boot code ROM offset.
    pub arm9_rom_offset: u32,
    /// ARM9 entry address.
    pub arm9_entry_address: u32,
    /// ARM9 RAM address.
    pub arm9_ram_address: u32,
    /// ARM9 code size.
    pub arm9_size: u32,
    /// ARM7 boot code ROM offset.
    pub arm7_rom_offset: u32,
    /// ARM7 entry address.
    pub arm7_entry_address: u32,
    /// ARM7 RAM address.
    pub arm7_ram_address: u32,
    /// ARM7 code size.
    pub arm7_size: u32,
    /// File name table offset.
    pub fnt_offset: u32,
    /// File name table size.
    pub fnt_size: u32,
    /// File allocation table offset.
    pub fat_offset: u32,
    /// File allocation table size.
    pub fat_size: u32,
    /// ARM9 overlay offset.
    pub arm9_overlay_offset: u32,
    /// ARM9 overlay size.
    pub arm9_overlay_size: u32,
    /// ARM7 overlay offset.
    pub arm7_overlay_offset: u32,
    /// ARM7 overlay size.
    pub arm7_overlay_size: u32,
    /// Port settings for normal commands.
    pub normal_command_settings: u32,
    /// Port settings for KEY1 commands.
    pub key1_command_settings: u32,
    /// Icon/title block offset; `0` means no banner.
    pub banner_offset: u32,
    /// Stored CRC-16 of the secure area.
    pub secure_area_crc16: u16,
    /// Secure area loading delay.
    pub secure_area_delay: u16,
    /// ARM9 autoload list hook address.
    pub arm9_autoload: u32,
    /// ARM7 autoload list hook address.
    pub arm7_autoload: u32,
    /// Secure area disable value, usually zero.
    pub secure_area_disable: u64,
    /// Total ROM size as stored in the header.
    pub rom_size: u32,
    /// ROM header size.
    pub header_size: u32,
    /// NAND end of ROM area.
    pub nand_rom_end: u16,
    /// NAND start of RW area.
    pub nand_rw_start: u16,
    /// Compressed Nintendo logo bitmap, 156 bytes.
    pub nintendo_logo: Vec<u8>,
    /// Stored CRC-16 of the logo.
    pub nintendo_logo_crc16: u16,
    /// Stored CRC-16 of the header bytes `0x000..0x15E`.
    pub header_crc16: u16,
    /// Debug ROM offset; `0` for none.
    pub debug_rom_offset: u32,
    /// Debug code size.
    pub debug_size: u32,
    /// Debug RAM address.
    pub debug_ram_address: u32,
}

impl NdsHeader {
    /// Every decoded field matches the raw record at its offset.
    pub open spec fn wf(&self) -> bool {
        let s = self.raw@;
        &&& s.len() == 512
        &&& self.game_title.buf@ == s.subrange(0x000, 0x00C)
        &&& self.game_code.buf@ == s.subrange(0x00C, 0x010)
        &&& self.maker_code.buf@ == s.subrange(0x010, 0x012)
        &&& self.unit_code == s[0x012]
        &&& self.device_type == s[0x013]
        &&& self.device_capacity == s[0x014]
        &&& self.nds_region == s[0x01D]
        &&& self.rom_version == s[0x01E]
        &&& self.autostart == s[0x01F]
        &&& self.arm9_rom_offset == word32(s, 0x020)
        &&& self.arm9_entry_address == word32(s, 0x024)
        &&& self.arm9_ram_address == word32(s, 0x028)
        &&& self.arm9_size == word32(s, 0x02C)
        &&& self.arm7_rom_offset == word32(s, 0x030)
        &&& self.arm7_entry_address == word32(s, 0x034)
        &&& self.arm7_ram_address == word32(s, 0x038)
        &&& self.arm7_size == word32(s, 0x03C)
        &&& self.fnt_offset == word32(s, 0x040)
        &&& self.fnt_size == word32(s, 0x044)
        &&& self.fat_offset == word32(s, 0x048)
        &&& self.fat_size == word32(s, 0x04C)
        &&& self.arm9_overlay_offset == word32(s, 0x050)
        &&& self.arm9_overlay_size == word32(s, 0x054)
        &&& self.arm7_overlay_offset == word32(s, 0x058)
        &&& self.arm7_overlay_size == word32(s, 0x05C)
        &&& self.normal_command_settings == word32(s, 0x060)
        &&& self.key1_command_settings == word32(s, 0x064)
        &&& self.banner_offset == word32(s, 0x068)
        &&& self.secure_area_crc16 == word16(s, 0x06C)
        &&& self.secure_area_delay == word16(s, 0x06E)
        &&& self.arm9_autoload == word32(s, 0x070)
        &&& self.arm7_autoload == word32(s, 0x074)
        &&& self.secure_area_disable == word64(s, 0x078)
        &&& self.rom_size == word32(s, 0x080)
        &&& self.header_size == word32(s, 0x084)
        &&& self.nand_rom_end == word16(s, 0x094)
        &&& self.nand_rw_start == word16(s, 0x096)
        &&& self.nintendo_logo@ == s.subrange(0x0C0, 0x15C)
        &&& self.nintendo_logo_crc16 == word16(s, 0x15C)
        &&& self.header_crc16 == word16(s, 0x15E)
        &&& self.debug_rom_offset == word32(s, 0x160)
        &&& self.debug_size == word32(s, 0x164)
        &&& self.debug_ram_address == word32(s, 0x168)
    }

    /// Decodes the header from the first 512 bytes of `rom`.
    pub fn read(rom: &Vec<u8>) -> (h: NdsHeader)
        requires
            rom.len() >= HEADER_SIZE,
        ensures
            h.wf(),
            h.raw@ == rom@.subrange(0, 512),
    {
        let raw = bytes_range(rom, 0, HEADER_SIZE);
        let h = NdsHeader {
            game_title: Ascii::new(bytes_range(&raw, 0x000, 0x00C)),
            game_code: Ascii::new(bytes_range(&raw, 0x00C, 0x010)),
            maker_code: Ascii::new(bytes_range(&raw, 0x010, 0x012)),
            unit_code: raw[0x012],
            device_type: raw[0x013],
            device_capacity: raw[0x014],
            nds_region: raw[0x01D],
            rom_version: raw[0x01E],
            autostart: raw[0x01F],
            arm9_rom_offset: read_u32(&raw, 0x020),
            arm9_entry_address: read_u32(&raw, 0x024),
            arm9_ram_address: read_u32(&raw, 0x028),
            arm9_size: read_u32(&raw, 0x02C),
            arm7_rom_offset: read_u32(&raw, 0x030),
            arm7_entry_address: read_u32(&raw, 0x034),
            arm7_ram_address: read_u32(&raw, 0x038),
            arm7_size: read_u32(&raw, 0x03C),
            fnt_offset: read_u32(&raw, 0x040),
            fnt_size: read_u32(&raw, 0x044),
            fat_offset: read_u32(&raw, 0x048),
            fat_size: read_u32(&raw, 0x04C),
            arm9_overlay_offset: read_u32(&raw, 0x050),
            arm9_overlay_size: read_u32(&raw, 0x054),
            arm7_overlay_offset: read_u32(&raw, 0x058),
            arm7_overlay_size: read_u32(&raw, 0x05C),
            normal_command_settings: read_u32(&raw, 0x060),
            key1_command_settings: read_u32(&raw, 0x064),
            banner_offset: read_u32(&raw, 0x068),
            secure_area_crc16: read_u16(&raw, 0x06C),
            secure_area_delay: read_u16(&raw, 0x06E),
            arm9_autoload: read_u32(&raw, 0x070),
            arm7_autoload: read_u32(&raw, 0x074),
            secure_area_disable: read_u64(&raw, 0x078),
            rom_size: read_u32(&raw, 0x080),
            header_size: read_u32(&raw, 0x084),
            nand_rom_end: read_u16(&raw, 0x094),
            nand_rw_start: read_u16(&raw, 0x096),
            nintendo_logo: bytes_range(&raw, 0x0C0, 0x15C),
            nintendo_logo_crc16: read_u16(&raw, 0x15C),
            header_crc16: read_u16(&raw, 0x15E),
            debug_rom_offset: read_u32(&raw, 0x160),
            debug_size: read_u32(&raw, 0x164),
            debug_ram_address: read_u32(&raw, 0x168),
            raw,
        };
        h
    }

    /// Whether the title is DSi-capable.
    pub fn is_dsi(&self) -> (r: bool)
        ensures
            r == (self.unit_code & 0x02 != 0),
    {
        self.unit_code & 0x02 != 0
    }

    /// Whether the cartridge carries an infrared transceiver, flagged by
    /// the first game-code byte.
    pub fn has_ir(&self) -> (r: bool)
        requires
            self.game_code.buf@.len() == 4,
        ensures
            r == (self.game_code.buf@[0] == 0x49),
    {
        self.game_code.buf[0] == 0x49
    }

    /// Whether the title looks like homebrew: boot code before the secure
    /// area, or the `####` sentinel game code.
    pub fn is_homebrew(&self) -> (r: bool)
        requires
            self.game_code.buf@.len() == 4,
        ensures
            r == spec_is_homebrew(self.arm9_rom_offset, self.game_code.buf@),
    {
        if self.arm9_rom_offset < 0x4000 {
            return true;
        }
        let b = &self.game_code.buf;
        let sentinel = b[0] == 0x23 && b[1] == 0x23 && b[2] == 0x23 && b[3] == 0x23;
        proof {
            if sentinel {
                assert(self.game_code.buf@ =~= seq![0x23u8, 0x23u8, 0x23u8, 0x23u8]);
            } else {
                assert(self.game_code.buf@ != seq![0x23u8, 0x23u8, 0x23u8, 0x23u8]) by {
                    let s = seq![0x23u8, 0x23u8, 0x23u8, 0x23u8];
                    assert(s[0] == 0x23u8 && s[1] == 0x23u8 && s[2] == 0x23u8 && s[3] == 0x23u8);
                }
            }
        }
        sentinel
    }

    /// Whether the image holds a secure area: exactly when the ARM9 boot
    /// code offset lies within `0x4000..0x8000`.
    pub fn has_secure_area(&self) -> (r: bool)
        ensures
            r == spec_has_secure_area(self.arm9_rom_offset),
    {
        self.arm9_rom_offset < 0x8000 && self.arm9_rom_offset >= 0x4000
    }

    /// The game code as a little-endian 32-bit word.
    pub fn game_code(&self) -> (r: u32)
        requires
            self.game_code.buf@.len() == 4,
        ensures
            r == word32(self.game_code.buf@, 0),
    {
        read_u32(&self.game_code.buf, 0)
    }

    /// The region named by the last game-code byte, if recognised.
    pub fn region(&self) -> (r: Option<&'static str>)
        requires
            self.game_code.buf@.len() == 4,
        ensures
            r is Some <==> known_region(self.game_code.buf@[3]),
            r matches Some(s) ==> s@ == region_name(self.game_code.buf@[3]),
    {
        region_of(self.game_code.buf[3])
    }

    /// The manufacturer named by the maker code, if recognised.
    pub fn maker(&self) -> (r: Option<&'static str>)
        requires
            self.maker_code.buf@.len() == 2,
        ensures
            r is Some <==> known_maker(self.maker_code.buf@[0], self.maker_code.buf@[1]),
            r matches Some(s) ==> s@ == maker_name(self.maker_code.buf@[0], self.maker_code.buf@[1]),
    {
        maker_of(self.maker_code.buf[0], self.maker_code.buf[1])
    }

    /// The device capacity in bytes: `128KB` shifted by the stored value.
    pub fn device_capacity_bytes(&self) -> (r: u64)
        requires
            self.device_capacity < 64,
        ensures
            r == (0x20000u64 << self.device_capacity),
    {
        0x20000u64 << self.device_capacity
    }

    /// The CRC-16 of the 156-byte Nintendo logo bitmap.
    pub fn compute_logo_crc16(&self) -> (r: u16)
        ensures
            r == crc16_seq(self.nintendo_logo@),
    {
        crc16(&self.nintendo_logo)
    }

    /// The CRC-16 of the header bytes `0x000..0x15E`.
    pub fn compute_header_crc16(&self) -> (r: u16)
        requires
            self.raw@.len() == 512,
        ensures
            r == crc16_seq(self.raw@.subrange(0, 0x15E)),
    {
        crc16_range(&self.raw, 0, 0x15E)
    }
}

/// Homebrew detection: boot code below the secure area, or the four-`#`
/// sentinel game code.
pub open spec fn spec_is_homebrew(arm9_rom_offset: u32, game_code: Seq<u8>) -> bool {
    arm9_rom_offset < 0x4000 || game_code == seq![0x23u8, 0x23u8, 0x23u8, 0x23u8]
}

/// Secure-area presence: the ARM9 boot code offset lies in
/// `0x4000..0x8000`.
pub open spec fn spec_has_secure_area(arm9_rom_offset: u32) -> bool {
    0x4000 <= arm9_rom_offset < 0x8000
}

/// Whether the region table knows the game-code region byte `b`.
pub open spec fn known_region(b: u8) -> bool {
    region_name(b).len() > 0
}

/// The region name for the game-code region byte `b`; empty when
/// unrecognised.
pub open spec fn region_name(b: u8) -> Seq<char> {
    if b == 0x43 {
        "China"@
    } else if b == 0x44 {
        "Germany"@
    } else if b == 0x45 {
        "USA"@
    } else if b == 0x46 {
        "France"@
    } else if b == 0x49 {
        "Italy"@
    } else if b == 0x4A {
        "Japan"@
    } else if b == 0x4B {
        "Korea"@
    } else if b == 0x4F {
        "International"@
    } else if b == 0x50 {
        "Europe"@
    } else if b == 0x53 {
        "Spain"@
    } else if b == 0x55 {
        "Australia"@
    } else if b == 0x56 {
        "Europe/Australia"@
    } else {
        Seq::empty()
    }
}

/// The region lookup over the game-code region byte.
fn region_of(b: u8) -> (r: Option<&'static str>)
    ensures
        r is Some <==> known_region(b),
        r matches Some(s) ==> s@ == region_name(b),
{
    proof {
        reveal_strlit("China");
        reveal_strlit("Germany");
        reveal_strlit("USA");
        reveal_strlit("France");
        reveal_strlit("Italy");
        reveal_strlit("Japan");
        reveal_strlit("Korea");
        reveal_strlit("International");
        reveal_strlit("Europe");
        reveal_strlit("Spain");
        reveal_strlit("Australia");
        reveal_strlit("Europe/Australia");
    }
    match b {
        0x43 => Some("China"),
        0x44 => Some("Germany"),
        0x45 => Some("USA"),
        0x46 => Some("France"),
        0x49 => Some("Italy"),
        0x4A => Some("Japan"),
        0x4B => Some("Korea"),
        0x4F => Some("International"),
        0x50 => Some("Europe"),
        0x53 => Some("Spain"),
        0x55 => Some("Australia"),
        0x56 => Some("Europe/Australia"),
        _ => None,
    }
}

/// Whether the maker table knows the two-byte maker code.
pub open spec fn known_maker(b0: u8, b1: u8) -> bool {
    maker_name(b0, b1).len() > 0
}

/// The manufacturer name for a two-byte maker code; empty when
/// unrecognised.
pub open spec fn maker_name(b0: u8, b1: u8) -> Seq<char> {
    if b0 == 0x30 && b1 == 0x31 {
        "Nintendo"@
    } else if b0 == 0x30 && b1 == 0x38 {
        "Capcom"@
    } else if b0 == 0x31 && b1 == 0x33 {
        "Electronic Arts"@
    } else if b0 == 0x34 && b1 == 0x31 {
        "Ubisoft"@
    } else if b0 == 0x35 && b1 == 0x32 {
        "Activision"@
    } else if b0 == 0x36 && b1 == 0x34 {
        "LucasArts"@
    } else if b0 == 0x37 && b1 == 0x30 {
        "Atari"@
    } else if b0 == 0x37 && b1 == 0x38 {
        "THQ"@
    } else if b0 == 0x38 && b1 == 0x50 {
        "Sega"@
    } else if b0 == 0x41 && b1 == 0x34 {
        "Konami"@
    } else if b0 == 0x41 && b1 == 0x46 {
        "Namco"@
    } else if b0 == 0x42 && b1 == 0x32 {
        "Bandai"@
    } else if b0 == 0x45 && b1 == 0x42 {
        "Atlus"@
    } else {
        Seq::empty()
    }
}

/// The maker lookup over the two maker-code bytes.
fn maker_of(b0: u8, b1: u8) -> (r: Option<&'static str>)
    ensures
        r is Some <==> known_maker(b0, b1),
        r matches Some(s) ==> s@ == maker_name(b0, b1),
{
    proof {
        reveal_strlit("Nintendo");
        reveal_strlit("Capcom");
        reveal_strlit("Electronic Arts");
        reveal_strlit("Ubisoft");
        reveal_strlit("Activision");
        reveal_strlit("LucasArts");
        reveal_strlit("Atari");
        reveal_strlit("THQ");
        reveal_strlit("Sega");
        reveal_strlit("Konami");
        reveal_strlit("Namco");
        reveal_strlit("Bandai");
        reveal_strlit("Atlus");
    }
    match (b0, b1) {
        (0x30, 0x31) => Some("Nintendo"),
        (0x30, 0x38) => Some("Capcom"),
        (0x31, 0x33) => Some("Electronic Arts"),
        (0x34, 0x31) => Some("Ubisoft"),
        (0x35, 0x32) => Some("Activision"),
        (0x36, 0x34) => Some("LucasArts"),
        (0x37, 0x30) => Some("Atari"),
        (0x37, 0x38) => Some("THQ"),
        (0x38, 0x50) => Some("Sega"),
        (0x41, 0x34) => Some("Konami"),
        (0x41, 0x46) => Some("Namco"),
        (0x42, 0x32) => Some("Bandai"),
        (0x45, 0x42) => Some("Atlus"),
        _ => None,
    }
}

/// Copies `data[start..end]` into a fresh buffer.
pub fn bytes_range(data: &Vec<u8>, start: usize, end: usize) -> (r: Vec<u8>)
    requires
        start <= end <= data.len(),
    ensures
        r@ == data@.subrange(start as int, end as int),
{
    let mut r: Vec<u8> = Vec::new();
    let mut i: usize = start;
    while i < end
        invariant
            start <= i <= end <= data@.len(),
            r@.len() == i - start,
            forall|j: int| 0 <= j < r@.len() ==> r@[j] == data@[start + j],
        decreases end - i,
    {
        r.push(data[i]);
        i += 1;
    }
    proof {
        assert(r@ =~= data@.subrange(start as int, end as int));
    }
    r
}

} // verus!
