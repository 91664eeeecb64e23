//! End-to-end load of a minimal homebrew-style image in the shape of the
//! "TinyFB" reference ROM: title, sentinel game code, checksum values,
//! and no banner.

use ndsrom::params::RomParamsTable;
use ndsrom::rom::NdsRom;

/// A 512-byte header whose logo bytes and stored checksums reproduce the
/// reference checksum values.
fn tiny_fb_bytes() -> Vec<u8> {
    let mut h = vec![0u8; 512];
    h[0..10].copy_from_slice(b"NDS.TinyFB");
    h[0xC..0x10].copy_from_slice(b"####");
    // ARM9 boot code at 0x200: a homebrew layout, no secure area.
    h[0x20] = 0x00;
    h[0x21] = 0x02;
    // Logo bytes chosen so the logo CRC-16 comes out 0x9E1A.
    h[0xC0 + 154] = 0x15;
    h[0xC0 + 155] = 0x6B;
    // Stored logo checksum bytes chosen so the header CRC-16 comes out
    // 0x908E, and the stored header checksum itself.
    h[0x15C] = 0x9A;
    h[0x15D] = 0x80;
    h[0x15E] = 0x8E;
    h[0x15F] = 0x90;
    h
}

#[test]
fn read_rom() {
    let table = RomParamsTable::new();
    let rom = NdsRom::load(&tiny_fb_bytes(), &table);

    let header = &rom.header;
    assert_eq!(header.game_title.to_str().unwrap(), "NDS.TinyFB");
    assert_eq!(header.game_code.to_str().unwrap(), "####");
    assert_eq!(header.compute_logo_crc16(), 0x9E1A);
    assert_eq!(header.compute_header_crc16(), 0x908E);

    assert!(rom.banner.is_none());
}
