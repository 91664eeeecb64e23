//! The CRC-16 engine against known check values.

use ndsrom::crc::{crc16, crc16_range};

#[test]
fn crc16_check_value() {
    let data: Vec<u8> = b"123456789".to_vec();
    assert_eq!(crc16(&data), 0x4B37);
}

#[test]
fn crc16_empty() {
    let data: Vec<u8> = Vec::new();
    assert_eq!(crc16(&data), 0xFFFF);
}

#[test]
fn crc16_single_byte() {
    // One zero byte folded into 0xFFFF.
    let data = vec![0u8];
    assert_eq!(crc16(&data), 0x40BF);
}

#[test]
fn crc16_range_matches_whole() {
    let data: Vec<u8> = b"xx123456789yy".to_vec();
    assert_eq!(crc16_range(&data, 2, 11), 0x4B37);
}

#[test]
fn crc16_range_empty_window() {
    let data: Vec<u8> = b"abc".to_vec();
    assert_eq!(crc16_range(&data, 1, 1), 0xFFFF);
}
