//! Header decoding and its derived facts.

use ndsrom::header::NdsHeader;

/// A 512-byte header with distinctive field values.
fn sample_header_bytes() -> Vec<u8> {
    let mut h = vec![0u8; 512];
    h[0..5].copy_from_slice(b"TITLE");
    h[0xC..0x10].copy_from_slice(b"AREJ");
    h[0x10..0x12].copy_from_slice(b"01");
    h[0x12] = 0x02; // unit code: DSi-capable
    h[0x14] = 0x07; // device capacity
    h[0x1D] = 0x40; // region byte: Korea
    h[0x20..0x24].copy_from_slice(&0x4000u32.to_le_bytes());
    h[0x24..0x28].copy_from_slice(&0x2000000u32.to_le_bytes());
    h[0x68..0x6C].copy_from_slice(&0x1240u32.to_le_bytes());
    h[0x6C..0x6E].copy_from_slice(&0xBEEFu16.to_le_bytes());
    h[0x80..0x84].copy_from_slice(&0x01000000u32.to_le_bytes());
    h
}

#[test]
fn parse_fields() {
    let h = NdsHeader::read(&sample_header_bytes());
    assert_eq!(h.game_title.to_str().unwrap(), "TITLE");
    assert_eq!(h.game_code.to_str().unwrap(), "AREJ");
    assert_eq!(h.maker_code.to_str().unwrap(), "01");
    assert_eq!(h.unit_code, 0x02);
    assert_eq!(h.device_capacity, 0x07);
    assert_eq!(h.nds_region, 0x40);
    assert_eq!(h.arm9_rom_offset, 0x4000);
    assert_eq!(h.arm9_entry_address, 0x2000000);
    assert_eq!(h.banner_offset, 0x1240);
    assert_eq!(h.secure_area_crc16, 0xBEEF);
    assert_eq!(h.rom_size, 0x01000000);
}

#[test]
fn derived_flags() {
    let h = NdsHeader::read(&sample_header_bytes());
    assert!(h.is_dsi());
    assert!(!h.is_homebrew());
    assert!(h.has_secure_area());
    assert!(!h.has_ir());
    assert_eq!(h.game_code(), u32::from_le_bytes(*b"AREJ"));
    assert_eq!(h.device_capacity_bytes(), 128 * 1024 << 7);
}

#[test]
fn region_and_maker() {
    let h = NdsHeader::read(&sample_header_bytes());
    assert_eq!(h.region(), Some("Japan"));
    assert_eq!(h.maker(), Some("Nintendo"));

    let mut bytes = sample_header_bytes();
    bytes[0xF] = b'#';
    bytes[0x10] = 0xFF;
    let h = NdsHeader::read(&bytes);
    assert_eq!(h.region(), None);
    assert_eq!(h.maker(), None);
}

#[test]
fn secure_area_boundaries() {
    // `has_secure_area` holds exactly on 0x4000..0x8000; both excluded
    // boundary values give false.
    for (off, expect) in [
        (0x3FFFu32, false),
        (0x4000, true),
        (0x7FFF, true),
        (0x8000, false),
        (0x0, false),
    ] {
        let mut bytes = sample_header_bytes();
        bytes[0x20..0x24].copy_from_slice(&off.to_le_bytes());
        let h = NdsHeader::read(&bytes);
        assert_eq!(h.has_secure_area(), expect, "offset {off:#X}");
    }
}

#[test]
fn homebrew_detection() {
    // Boot offset below 0x4000.
    let mut bytes = sample_header_bytes();
    bytes[0x20..0x24].copy_from_slice(&0x200u32.to_le_bytes());
    assert!(NdsHeader::read(&bytes).is_homebrew());

    // The #### sentinel game code.
    let mut bytes = sample_header_bytes();
    bytes[0xC..0x10].copy_from_slice(b"####");
    assert!(NdsHeader::read(&bytes).is_homebrew());
}

#[test]
fn infrared_flag() {
    let mut bytes = sample_header_bytes();
    bytes[0xC] = b'I';
    assert!(NdsHeader::read(&bytes).has_ir());
}

#[test]
fn header_checksums() {
    let bytes = sample_header_bytes();
    let h = NdsHeader::read(&bytes);
    assert_eq!(h.compute_logo_crc16(), reference_crc16(&bytes[0xC0..0x15C]));
    assert_eq!(h.compute_header_crc16(), reference_crc16(&bytes[0..0x15E]));
}

/// An independent CRC-16 for cross-checking.
fn reference_crc16(data: &[u8]) -> u16 {
    let mut c: u16 = 0xFFFF;
    for &b in data {
        c ^= b as u16;
        for _ in 0..8 {
            c = if c & 1 == 1 { (c >> 1) ^ 0xA001 } else { c >> 1 };
        }
    }
    c
}
