//! Save-memory classification and the parameter table.

use ndsrom::params::{Entry, MemoryKind, RomParamsTable, SramKind};

#[test]
fn sram_sizes() {
    assert_eq!(SramKind::NoSram.size(), 0);
    assert_eq!(SramKind::Eeprom512B.size(), 512);
    assert_eq!(SramKind::Eeprom8KB.size(), 8 * 1024);
    assert_eq!(SramKind::Eeprom64KB.size(), 64 * 1024);
    assert_eq!(SramKind::Eeprom128KB.size(), 128 * 1024);
    assert_eq!(SramKind::Flash256KB.size(), 256 * 1024);
    assert_eq!(SramKind::Flash512KB.size(), 512 * 1024);
    assert_eq!(SramKind::Flash1MB.size(), 1024 * 1024);
    assert_eq!(SramKind::Nand8MB.size(), 8 * 1024 * 1024);
    assert_eq!(SramKind::Nand16MB.size(), 16 * 1024 * 1024);
    assert_eq!(SramKind::Nand64MB.size(), 64 * 1024 * 1024);
}

#[test]
fn memory_kinds() {
    assert_eq!(SramKind::NoSram.memory_kind(), MemoryKind::NoSram);
    assert_eq!(SramKind::Eeprom512B.memory_kind(), MemoryKind::EepromSmall);
    assert_eq!(SramKind::Eeprom8KB.memory_kind(), MemoryKind::EepromRegular);
    assert_eq!(SramKind::Eeprom64KB.memory_kind(), MemoryKind::EepromRegular);
    assert_eq!(SramKind::Eeprom128KB.memory_kind(), MemoryKind::EepromRegular);
    assert_eq!(SramKind::Flash256KB.memory_kind(), MemoryKind::Flash);
    assert_eq!(SramKind::Flash512KB.memory_kind(), MemoryKind::Flash);
    assert_eq!(SramKind::Flash1MB.memory_kind(), MemoryKind::Flash);
    assert_eq!(SramKind::Nand8MB.memory_kind(), MemoryKind::Nand);
    assert_eq!(SramKind::Nand16MB.memory_kind(), MemoryKind::Nand);
    assert_eq!(SramKind::Nand64MB.memory_kind(), MemoryKind::Nand);
}

#[test]
fn ordinals() {
    assert_eq!(SramKind::from_ordinal(0), Some(SramKind::NoSram));
    assert_eq!(SramKind::from_ordinal(7), Some(SramKind::Flash1MB));
    assert_eq!(SramKind::from_ordinal(10), Some(SramKind::Nand64MB));
    assert_eq!(SramKind::from_ordinal(11), None);
}

#[test]
fn table_lookup_hit_and_miss() {
    let mut table = RomParamsTable::new();
    table.push(0x1111, Entry { rom_size: 0x100000, sram_kind: SramKind::Flash1MB });
    table.push(0x2222, Entry { rom_size: 0x200000, sram_kind: SramKind::NoSram });
    let hit = table.get(0x2222).unwrap();
    assert_eq!(hit.rom_size, 0x200000);
    assert_eq!(hit.sram_kind, SramKind::NoSram);
    assert!(table.get(0x3333).is_none());
}

#[test]
fn table_lookup_first_match_wins() {
    let mut table = RomParamsTable::new();
    table.push(0x1111, Entry { rom_size: 1, sram_kind: SramKind::NoSram });
    table.push(0x1111, Entry { rom_size: 2, sram_kind: SramKind::NoSram });
    assert_eq!(table.get(0x1111).unwrap().rom_size, 1);
}

#[test]
fn push_raw_degrades_unknown_ordinal() {
    let mut table = RomParamsTable::new();
    table.push_raw(0x1111, 0x400000, 99);
    let e = table.get(0x1111).unwrap();
    assert_eq!(e.rom_size, 0x400000);
    assert_eq!(e.sram_kind, SramKind::NoSram);
}
