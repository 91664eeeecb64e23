//! Decoding and validation of Nintendo DS cartridge ROM images.
//!
//! The crate covers the fixed-offset binary decoders for the 512-byte
//! cartridge header and the icon/title banner block, the KEY1 block cipher
//! used to protect the cartridge's secure area, and the loader that assembles
//! a complete in-memory ROM image: size normalisation, chip-ID synthesis,
//! save-memory parameter lookup, and secure-area integrity repair.

pub mod ascii;
pub mod banner;
pub mod crc;
pub mod header;
pub mod key1;
pub mod lebytes;
pub mod params;
pub mod rom;
pub mod strext;
pub mod utf16;
