//! The ROM loader: buffer rounding, parameter resolution, chip-ID
//! synthesis, secure-area repair and its checksum.

use ndsrom::key1::Key1;
use ndsrom::params::{Entry, RomParamsTable, SramKind};
use ndsrom::rom::NdsRom;

/// An image of `total` raw bytes with the given boot offset and game
/// code.
fn image(total: usize, arm9_off: u32, game_code: &[u8; 4]) -> Vec<u8> {
    let mut v = vec![0u8; total];
    v[0xC..0x10].copy_from_slice(game_code);
    v[0x20..0x24].copy_from_slice(&arm9_off.to_le_bytes());
    v
}

fn empty_table() -> RomParamsTable {
    RomParamsTable::new()
}

#[test]
fn buffer_length_rounds_to_power_of_two() {
    for (input, expect) in [
        (0usize, 512usize),
        (1, 512),
        (511, 512),
        (512, 512),
        (513, 1024),
        (1024, 1024),
        (0x4001, 0x8000),
        (0x6000, 0x8000),
    ] {
        let bytes = if input >= 0x24 {
            image(input, 0x200, b"####")
        } else {
            vec![0u8; input]
        };
        let rom = NdsRom::load(&bytes, &empty_table());
        assert_eq!(rom.rom.len(), expect, "input length {input}");
        // The raw bytes sit unchanged at the front, zeros behind them.
        assert_eq!(&rom.rom[..input], &bytes[..]);
    }
}

#[test]
fn params_from_table() {
    let mut table = RomParamsTable::new();
    let code = u32::from_le_bytes(*b"AREJ");
    table.push(code, Entry { rom_size: 0x2000000, sram_kind: SramKind::Flash512KB });
    let rom = NdsRom::load(&image(0x1000, 0x200, b"AREJ"), &table);
    assert_eq!(rom.params.rom_size, 0x2000000);
    assert_eq!(rom.params.sram_kind, SramKind::Flash512KB);
}

#[test]
fn params_fallback_homebrew() {
    let rom = NdsRom::load(&image(0x1000, 0x200, b"####"), &empty_table());
    assert_eq!(rom.params.sram_kind, SramKind::NoSram);
    assert_eq!(rom.params.rom_size, 0x1000);
}

#[test]
fn params_fallback_commercial() {
    let rom = NdsRom::load(&image(0x1000, 0x10000, b"AREJ"), &empty_table());
    assert_eq!(rom.params.sram_kind, SramKind::Eeprom64KB);
    assert_eq!(rom.params.rom_size, 0x1000);
}

#[test]
fn chip_id_sixteen_mib() {
    // A 16MiB buffer with a non-NAND save: size field 16 - 1 = 15.
    let rom = NdsRom::load(&image(16 * 1024 * 1024, 0x10000, b"AREJ"), &empty_table());
    assert_eq!((rom.chip_id >> 8) & 0xFF, 15);
    assert_eq!(rom.chip_id, 0x0FC2);
}

#[test]
fn chip_id_nand() {
    let mut table = RomParamsTable::new();
    let code = u32::from_le_bytes(*b"AREJ");
    table.push(code, Entry { rom_size: 0x1000000, sram_kind: SramKind::Nand16MB });
    let rom = NdsRom::load(&image(16 * 1024 * 1024, 0x10000, b"AREJ"), &table);
    assert_eq!(rom.chip_id & 0x48000000, 0x48000000);
    assert_eq!(rom.chip_id & 0x80000000, 0);
    assert_eq!(rom.chip_id, 0x48000FC2);
}

#[test]
fn chip_id_large_rom_flag() {
    let mut table = RomParamsTable::new();
    let code = u32::from_le_bytes(*b"AREJ");
    table.push(code, Entry { rom_size: 0x8000000, sram_kind: SramKind::Flash1MB });
    let rom = NdsRom::load(&image(0x1000, 0x10000, b"AREJ"), &table);
    assert_eq!(rom.chip_id & 0x80000000, 0x80000000);
}

#[test]
fn chip_id_dsi_flag() {
    let mut bytes = image(0x1000, 0x10000, b"AREJ");
    bytes[0x12] = 0x02;
    let rom = NdsRom::load(&bytes, &empty_table());
    assert_eq!(rom.chip_id & 0x08000000, 0x08000000);
}

/// An image whose secure area opens with the destroyed-ID sentinel and
/// does not repeat it at offset 0x10: the repair trigger.
fn raw_dump_image() -> Vec<u8> {
    let mut v = image(0x6000, 0x4000, b"AREJ");
    v[0x4000..0x4004].copy_from_slice(&[0xFF, 0xDE, 0xFF, 0xE7]);
    for i in 0x4004..0x4800 {
        v[i] = (i % 251) as u8;
    }
    v[0x4010..0x4014].copy_from_slice(&[0, 0, 0, 0]);
    v
}

#[test]
fn repair_triggers_on_raw_dump() {
    let bytes = raw_dump_image();
    let rom = NdsRom::load(&bytes, &empty_table());
    // The secure-area prefix was re-encrypted in place.
    assert_ne!(&rom.rom[0x4000..0x4800], &bytes[0x4000..0x4800]);
    // Bytes outside the first 0x800 of the secure area are untouched.
    assert_eq!(&rom.rom[..0x4000], &bytes[..0x4000]);
    assert_eq!(&rom.rom[0x4800..0x6000], &bytes[0x4800..0x6000]);
}

#[test]
fn repair_produces_decryptable_secure_area() {
    let bytes = raw_dump_image();
    let rom = NdsRom::load(&bytes, &empty_table());
    let code = u32::from_le_bytes(*b"AREJ");
    let mut area = rom.rom.clone();
    // Undo the repair: one level-2 decryption of the first block, then a
    // level-3 decryption of every block.
    Key1::init2(code).decrypt_block(&mut area, 0x4000);
    let key3 = Key1::init3(code);
    for i in 0..0x100 {
        key3.decrypt_block(&mut area, 0x4000 + 8 * i);
    }
    assert_eq!(&area[0x4000..0x4008], b"encryObj");
    // Behind the tag the raw bytes come back.
    assert_eq!(&area[0x4008..0x4800], &bytes[0x4008..0x4800]);
}

#[test]
fn repair_skipped_without_sentinel() {
    let mut bytes = raw_dump_image();
    bytes[0x4000] = 0x00;
    let rom = NdsRom::load(&bytes, &empty_table());
    assert_eq!(&rom.rom[..0x6000], &bytes[..]);
}

#[test]
fn repair_skipped_when_id_destroyed_throughout() {
    // The sentinel at 0x10 as well marks genuinely destroyed-ID data.
    let mut bytes = raw_dump_image();
    bytes[0x4010..0x4014].copy_from_slice(&[0xFF, 0xDE, 0xFF, 0xE7]);
    let rom = NdsRom::load(&bytes, &empty_table());
    assert_eq!(&rom.rom[..0x6000], &bytes[..]);
}

#[test]
fn repair_is_idempotent_under_reload() {
    let rom = NdsRom::load(&raw_dump_image(), &empty_table());
    let again = NdsRom::load(&rom.rom, &empty_table());
    assert_eq!(again.rom, rom.rom);
}

#[test]
fn secure_area_crc() {
    let rom = NdsRom::load(&raw_dump_image(), &empty_table());
    let crc = rom.compute_secure_area_crc16().unwrap();
    assert_eq!(crc, reference_crc16(&rom.rom[0x4000..0x8000]));
    assert_eq!(rom.secure_area(), &rom.rom[0x4000..0x8000]);

    let no_area = NdsRom::load(&image(0x1000, 0x200, b"####"), &empty_table());
    assert!(no_area.compute_secure_area_crc16().is_none());
}

#[test]
fn banner_decoded_when_present() {
    let mut bytes = image(512 + 9152, 0x200, b"####");
    bytes[0x68..0x6C].copy_from_slice(&512u32.to_le_bytes());
    let banner_base = 512;
    bytes[banner_base..banner_base + 2].copy_from_slice(&3u16.to_le_bytes());
    bytes[banner_base + 2..banner_base + 4].copy_from_slice(&0xAAAAu16.to_le_bytes());
    bytes[banner_base + 0x20] = 0x12;
    // "Hi" in UTF-16LE at the English title slot.
    let title = banner_base + 0x340;
    bytes[title..title + 2].copy_from_slice(&(b'H' as u16).to_le_bytes());
    bytes[title + 2..title + 4].copy_from_slice(&(b'i' as u16).to_le_bytes());
    let rom = NdsRom::load(&bytes, &empty_table());
    let banner = rom.banner.as_ref().unwrap();
    assert_eq!(banner.version, 3);
    assert_eq!(banner.crc16[0], 0xAAAA);
    assert_eq!(banner.icon[0], 0x12);
    assert_eq!(banner.title_english.to_string().unwrap(), "Hi");
    assert_eq!(banner.title_japanese.to_string().unwrap(), "");
}

/// An independent CRC-16 for cross-checking.
fn reference_crc16(data: &[u8]) -> u16 {
    let mut c: u16 = 0xFFFF;
    for &b in data {
        c ^= b as u16;
        for _ in 0..8 {
            c = if c & 1 == 1 { (c >> 1) ^ 0xA001 } else { c >> 1 };
        }
    }
    c
}
