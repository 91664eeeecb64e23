//! The icon/title banner block.
//!
//! The header's banner offset locates a fixed-size record holding the
//! icon bitmap and palette, up to eight UTF-16 titles, stored checksums,
//! and the DSi icon animation.  Parsing is a pure structural
//! reinterpretation; the DSi fields are populated for every version, and
//! pre-DSi versions simply carry whatever bytes stand there.

use vstd::prelude::*;

use crate::header::bytes_range;
use crate::lebytes::{read_u16, word16};
use crate::utf16::Utf16;

verus! {

/// The size of a banner in bytes.
pub const BANNER_SIZE: usize = 9152;

/// The 16-bit little-endian words at `start`, `start + 2`, ...
pub open spec fn words16(s: Seq<u8>, start: int, count: nat) -> Seq<u16> {
    Seq::new(count, |j: int| word16(s, start + 2 * j))
}

/// An NDS ROM icon/title banner.
///
/// Each title is usually a primary title, an optional subtitle, and the
/// manufacturer, separated by line feeds and terminated by `0x0000`.
#[derive(Clone, Debug)]
pub struct NdsBanner {
    /// Version: 1 original, 2 with Chinese title, 3 with Chinese and
    /// Korean titles, `0x0103` with an animated DSi icon as well.
    pub version: u16,
    /// The four stored CRC-16 entries, gated by version thresholds.
    pub crc16: Vec<u16>,
    /// Icon bitmap: 32x32 pixels as 4x4 tiles, 4-bit depth.
    pub icon: Vec<u8>,
    /// Icon palette of 16 colours; colour 0 is transparent.
    pub palette: Vec<u16>,
    /// Japanese title.
    pub title_japanese: Utf16,
    /// English title.
    pub title_english: Utf16,
    /// French title.
    pub title_french: Utf16,
    /// German title.
    pub title_german: Utf16,
    /// Italian title.
    pub title_italian: Utf16,
    /// Spanish title.
    pub title_spanish: Utf16,
    /// Chinese title (version 2 and above, or `0xFFFF` filled).
    pub title_chinese: Utf16,
    /// Korean title (version 3 and above, or `0xFFFF` filled).
    pub title_korean: Utf16,
    /// DSi icon animation bitmaps, 8 frames.
    pub dsi_icon: Vec<Vec<u8>>,
    /// DSi icon animation palettes, 8 of 16 colours.
    pub dsi_palette: Vec<Vec<u16>>,
    /// DSi icon animation sequence: 64 packed flip/palette/bitmap/duration
    /// tokens, terminated by a zero token.
    pub dsi_sequence: Vec<u16>,
}

/// The decoded fields of `b` match the record at `off` in `s`.
pub open spec fn banner_matches(b: NdsBanner, s: Seq<u8>, off: int) -> bool {
    &&& b.version == word16(s, off)
    &&& b.crc16@ == words16(s, off + 0x0002, 4)
    &&& b.icon@ == s.subrange(off + 0x0020, off + 0x0220)
    &&& b.palette@ == words16(s, off + 0x0220, 16)
    &&& b.title_japanese@ == words16(s, off + 0x0240, 128)
    &&& b.title_english@ == words16(s, off + 0x0340, 128)
    &&& b.title_french@ == words16(s, off + 0x0440, 128)
    &&& b.title_german@ == words16(s, off + 0x0540, 128)
    &&& b.title_italian@ == words16(s, off + 0x0640, 128)
    &&& b.title_spanish@ == words16(s, off + 0x0740, 128)
    &&& b.title_chinese@ == words16(s, off + 0x0840, 128)
    &&& b.title_korean@ == words16(s, off + 0x0940, 128)
    &&& b.dsi_icon@.len() == 8
    &&& forall|k: int|
        0 <= k < 8 ==> (#[trigger] b.dsi_icon@[k])@ == s.subrange(
            off + 0x1240 + k * 0x200,
            off + 0x1240 + k * 0x200 + 0x200,
        )
    &&& b.dsi_palette@.len() == 8
    &&& forall|k: int|
        0 <= k < 8 ==> (#[trigger] b.dsi_palette@[k])@ == words16(s, off + 0x2240 + k * 0x20, 16)
    &&& b.dsi_sequence@ == words16(s, off + 0x2340, 64)
}

impl NdsBanner {
    /// Decodes the banner at `offset` in `rom`.
    pub fn read(rom: &Vec<u8>, offset: usize) -> (b: NdsBanner)
        requires
            offset + BANNER_SIZE <= rom.len(),
        ensures
            banner_matches(b, rom@, offset as int),
    {
        let mut dsi_icon: Vec<Vec<u8>> = Vec::new();
        let mut k: usize = 0;
        while k < 8
            invariant
                offset + BANNER_SIZE <= rom.len(),
                k <= 8,
                dsi_icon@.len() == k,
                forall|j: int|
                    0 <= j < k ==> (#[trigger] dsi_icon@[j])@ == rom@.subrange(
                        offset + 0x1240 + j * 0x200,
                        offset + 0x1240 + j * 0x200 + 0x200,
                    ),
            decreases 8 - k,
        {
            dsi_icon.push(bytes_range(rom, offset + 0x1240 + k * 0x200, offset + 0x1240 + k * 0x200
                + 0x200));
            k += 1;
        }
        let mut dsi_palette: Vec<Vec<u16>> = Vec::new();
        let mut k: usize = 0;
        while k < 8
            invariant
                offset + BANNER_SIZE <= rom.len(),
                k <= 8,
                dsi_palette@.len() == k,
                forall|j: int|
                    0 <= j < k ==> (#[trigger] dsi_palette@[j])@ == words16(
                        rom@,
                        offset + 0x2240 + j * 0x20,
                        16,
                    ),
            decreases 8 - k,
        {
            dsi_palette.push(units_range(rom, offset + 0x2240 + k * 0x20, 16));
            k += 1;
        }
        NdsBanner {
            version: read_u16(rom, offset),
            crc16: units_range(rom, offset + 0x0002, 4),
            icon: bytes_range(rom, offset + 0x0020, offset + 0x0220),
            palette: units_range(rom, offset + 0x0220, 16),
            title_japanese: Utf16::new(units_range(rom, offset + 0x0240, 128)),
            title_english: Utf16::new(units_range(rom, offset + 0x0340, 128)),
            title_french: Utf16::new(units_range(rom, offset + 0x0440, 128)),
            title_german: Utf16::new(units_range(rom, offset + 0x0540, 128)),
            title_italian: Utf16::new(units_range(rom, offset + 0x0640, 128)),
            title_spanish: Utf16::new(units_range(rom, offset + 0x0740, 128)),
            title_chinese: Utf16::new(units_range(rom, offset + 0x0840, 128)),
            title_korean: Utf16::new(units_range(rom, offset + 0x0940, 128)),
            dsi_icon,
            dsi_palette,
            dsi_sequence: units_range(rom, offset + 0x2340, 64),
        }
    }
}

/// Reads `count` 16-bit little-endian words starting at `start`.
pub fn units_range(data: &Vec<u8>, start: usize, count: usize) -> (r: Vec<u16>)
    requires
        start + 2 * count <= data.len(),
    ensures
        r@ == words16(data@, start as int, count as nat),
{
    let mut r: Vec<u16> = Vec::new();
    let mut i: usize = 0;
    while i < count
        invariant
            start + 2 * count <= data.len(),
            i <= count,
            r@.len() == i,
            forall|j: int| 0 <= j < i ==> r@[j] == word16(data@, start + 2 * j),
        decreases count - i,
    {
        r.push(read_u16(data, start + 2 * i));
        i += 1;
    }
    proof {
        assert(r@ =~= words16(data@, start as int, count as nat));
    }
    r
}

} // verus!
