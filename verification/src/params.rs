//! Save-memory classification and the game-code parameter table.
//!
//! Each cartridge backs its save data with one of several memory parts;
//! the loader resolves the part and the true ROM size from a table keyed
//! by the 32-bit game code.  The table is external data injected as a
//! lookup capability, as the loader itself carries no game list.

use vstd::prelude::*;

verus! {

/// The kind and size of a cartridge's save memory.
#[derive(Clone, Copy, Debug, PartialEq, Eq, Structural)]
pub enum SramKind {
    /// No SRAM.
    NoSram,
    /// 512B EEPROM.
    Eeprom512B,
    /// 8KB EEPROM.
    Eeprom8KB,
    /// 64KB EEPROM.
    Eeprom64KB,
    /// 128KB EEPROM.
    Eeprom128KB,
    /// 256KB Flash.
    Flash256KB,
    /// 512KB Flash.
    Flash512KB,
    /// 1MB Flash.
    Flash1MB,
    /// 8MB NAND.
    Nand8MB,
    /// 16MB NAND.
    Nand16MB,
    /// 64MB NAND.
    Nand64MB,
}

/// The coarse technology class of a save memory part.
#[derive(Clone, Copy, Debug, PartialEq, Eq, Structural)]
pub enum MemoryKind {
    /// No SRAM.
    NoSram,
    /// Small EEPROM.
    EepromSmall,
    /// Regular EEPROM.
    EepromRegular,
    /// Flash.
    Flash,
    /// NAND.
    Nand,
}

/// The size in bytes of each save-memory kind.
pub open spec fn sram_size(k: SramKind) -> usize {
    match k {
        SramKind::NoSram => 0,
        SramKind::Eeprom512B => 512,
        SramKind::Eeprom8KB => 0x2000,
        SramKind::Eeprom64KB => 0x10000,
        SramKind::Eeprom128KB => 0x20000,
        SramKind::Flash256KB => 0x40000,
        SramKind::Flash512KB => 0x80000,
        SramKind::Flash1MB => 0x100000,
        SramKind::Nand8MB => 0x800000,
        SramKind::Nand16MB => 0x1000000,
        SramKind::Nand64MB => 0x4000000,
    }
}

/// The technology class of each save-memory kind.
pub open spec fn sram_memory_kind(k: SramKind) -> MemoryKind {
    match k {
        SramKind::NoSram => MemoryKind::NoSram,
        SramKind::Eeprom512B => MemoryKind::EepromSmall,
        SramKind::Eeprom8KB => MemoryKind::EepromRegular,
        SramKind::Eeprom64KB => MemoryKind::EepromRegular,
        SramKind::Eeprom128KB => MemoryKind::EepromRegular,
        SramKind::Flash256KB => MemoryKind::Flash,
        SramKind::Flash512KB => MemoryKind::Flash,
        SramKind::Flash1MB => MemoryKind::Flash,
        SramKind::Nand8MB => MemoryKind::Nand,
        SramKind::Nand16MB => MemoryKind::Nand,
        SramKind::Nand64MB => MemoryKind::Nand,
    }
}

/// The save-memory kind named by an external table ordinal, if any.
pub open spec fn sram_of_ordinal(n: u32) -> Option<SramKind> {
    if n == 0 {
        Some(SramKind::NoSram)
    } else if n == 1 {
        Some(SramKind::Eeprom512B)
    } else if n == 2 {
        Some(SramKind::Eeprom8KB)
    } else if n == 3 {
        Some(SramKind::Eeprom64KB)
    } else if n == 4 {
        Some(SramKind::Eeprom128KB)
    } else if n == 5 {
        Some(SramKind::Flash256KB)
    } else if n == 6 {
        Some(SramKind::Flash512KB)
    } else if n == 7 {
        Some(SramKind::Flash1MB)
    } else if n == 8 {
        Some(SramKind::Nand8MB)
    } else if n == 9 {
        Some(SramKind::Nand16MB)
    } else if n == 10 {
        Some(SramKind::Nand64MB)
    } else {
        None
    }
}

impl SramKind {
    /// The size of the SRAM in bytes.
    pub fn size(self) -> (r: usize)
        ensures
            r == sram_size(self),
    {
        match self {
            SramKind::NoSram => 0,
            SramKind::Eeprom512B => 512,
            SramKind::Eeprom8KB => 0x2000,
            SramKind::Eeprom64KB => 0x10000,
            SramKind::Eeprom128KB => 0x20000,
            SramKind::Flash256KB => 0x40000,
            SramKind::Flash512KB => 0x80000,
            SramKind::Flash1MB => 0x100000,
            SramKind::Nand8MB => 0x800000,
            SramKind::Nand16MB => 0x1000000,
            SramKind::Nand64MB => 0x4000000,
        }
    }

    /// The kind of memory backing the SRAM.
    pub fn memory_kind(self) -> (r: MemoryKind)
        ensures
            r == sram_memory_kind(self),
    {
        match self {
            SramKind::NoSram => MemoryKind::NoSram,
            SramKind::Eeprom512B => MemoryKind::EepromSmall,
            SramKind::Eeprom8KB | SramKind::Eeprom64KB | SramKind::Eeprom128KB => {
                MemoryKind::EepromRegular
            },
            SramKind::Flash256KB | SramKind::Flash512KB | SramKind::Flash1MB => MemoryKind::Flash,
            SramKind::Nand8MB | SramKind::Nand16MB | SramKind::Nand64MB => MemoryKind::Nand,
        }
    }

    /// The save-memory kind for an external table ordinal; `None` for an
    /// unrecognised ordinal, which a table builder degrades to no SRAM.
    pub fn from_ordinal(n: u32) -> (r: Option<SramKind>)
        ensures
            r == sram_of_ordinal(n),
    {
        match n {
            0 => Some(SramKind::NoSram),
            1 => Some(SramKind::Eeprom512B),
            2 => Some(SramKind::Eeprom8KB),
            3 => Some(SramKind::Eeprom64KB),
            4 => Some(SramKind::Eeprom128KB),
            5 => Some(SramKind::Flash256KB),
            6 => Some(SramKind::Flash512KB),
            7 => Some(SramKind::Flash1MB),
            8 => Some(SramKind::Nand8MB),
            9 => Some(SramKind::Nand16MB),
            10 => Some(SramKind::Nand64MB),
            _ => None,
        }
    }
}

/// A ROM with known size and SRAM.
#[derive(Clone, Copy, Debug, PartialEq, Eq, Structural)]
pub struct Entry {
    /// The size of the ROM in bytes.
    pub rom_size: u32,
    /// The kind and size of SRAM.
    pub sram_kind: SramKind,
}

/// The parameters of the first row of `s` whose game code is `code`.
pub open spec fn table_lookup(s: Seq<(u32, Entry)>, code: u32) -> Option<Entry>
    decreases s.len(),
{
    if s.len() == 0 {
        None
    } else if s[0].0 == code {
        Some(s[0].1)
    } else {
        table_lookup(s.drop_first(), code)
    }
}

/// A game-code to ROM-parameter table, built once from external data and
/// injected into the loader as a read-only lookup capability.
pub struct RomParamsTable {
    rows: Vec<(u32, Entry)>,
}

impl View for RomParamsTable {
    type V = Seq<(u32, Entry)>;

    closed spec fn view(&self) -> Seq<(u32, Entry)> {
        self.rows@
    }
}

impl RomParamsTable {
    /// An empty table: every lookup misses.
    pub fn new() -> (r: RomParamsTable)
        ensures
            r@ == Seq::<(u32, Entry)>::empty(),
    {
        RomParamsTable { rows: Vec::new() }
    }

    /// Adds a row mapping `code` to `entry`.
    pub fn push(&mut self, code: u32, entry: Entry)
        ensures
            final(self)@ == old(self)@.push((code, entry)),
    {
        self.rows.push((code, entry));
    }

    /// Adds a row from external descriptive data: a game code, a ROM
    /// size, and a save-memory ordinal.  An unrecognised ordinal degrades
    /// to no SRAM.
    pub fn push_raw(&mut self, code: u32, rom_size: u32, sram_ordinal: u32)
        ensures
            final(self)@ == old(self)@.push(
                (
                    code,
                    Entry {
                        rom_size,
                        sram_kind: match sram_of_ordinal(sram_ordinal) {
                            Some(k) => k,
                            None => SramKind::NoSram,
                        },
                    },
                ),
            ),
    {
        let sram_kind = match SramKind::from_ordinal(sram_ordinal) {
            Some(k) => k,
            None => SramKind::NoSram,
        };
        self.rows.push((code, Entry { rom_size, sram_kind }));
    }

    /// Looks up the parameters recorded for `code`: the first matching
    /// row, or `None` when the table holds no row for it.
    pub fn get(&self, code: u32) -> (r: Option<Entry>)
        ensures
            r == table_lookup(self@, code),
    {
        let n = self.rows.len();
        let mut i: usize = 0;
        while i < n
            invariant
                n == self@.len(),
                i <= n,
                forall|j: int| 0 <= j < i ==> (#[trigger] self@[j]).0 != code,
            decreases n - i,
        {
            let row = self.rows[i];
            if row.0 == code {
                proof {
                    lemma_table_lookup_hit(self@, code, i as int);
                }
                return Some(row.1);
            }
            i += 1;
        }
        proof {
            lemma_table_lookup_miss(self@, code);
        }
        None
    }
}

/// A lookup over rows none of which carries `code` misses.
proof fn lemma_table_lookup_miss(s: Seq<(u32, Entry)>, code: u32)
    requires
        forall|j: int| 0 <= j < s.len() ==> (#[trigger] s[j]).0 != code,
    ensures
        table_lookup(s, code) == None::<Entry>,
    decreases s.len(),
{
    if s.len() > 0 {
        assert(s[0].0 != code);
        assert(forall|j: int|
            0 <= j < s.drop_first().len() ==> (#[trigger] s.drop_first()[j]) == s[j + 1]);
        lemma_table_lookup_miss(s.drop_first(), code);
    }
}

/// A lookup finds the first row that carries `code`.
proof fn lemma_table_lookup_hit(s: Seq<(u32, Entry)>, code: u32, i: int)
    requires
        0 <= i < s.len(),
        s[i].0 == code,
        forall|j: int| 0 <= j < i ==> (#[trigger] s[j]).0 != code,
    ensures
        table_lookup(s, code) == Some(s[i].1),
    decreases i,
{
    if i > 0 {
        assert(s[0].0 != code);
        assert(forall|j: int|
            0 <= j < s.drop_first().len() ==> (#[trigger] s.drop_first()[j]) == s[j + 1]);
        lemma_table_lookup_hit(s.drop_first(), code, i - 1);
    }
}

} // verus!
