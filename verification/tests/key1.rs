//! The KEY1 cipher: block round trips at every key level, and the block
//! operations actually transforming their input.

use ndsrom::key1::Key1;

fn sample_block() -> Vec<u8> {
    vec![0x01, 0x23, 0x45, 0x67, 0x89, 0xAB, 0xCD, 0xEF]
}

#[test]
fn round_trip_level1() {
    let key = Key1::init1(0x23232323);
    let mut block = sample_block();
    key.encrypt_block(&mut block, 0);
    key.decrypt_block(&mut block, 0);
    assert_eq!(block, sample_block());
}

#[test]
fn round_trip_level2() {
    let key = Key1::init2(0x23232323);
    let mut block = sample_block();
    key.encrypt_block(&mut block, 0);
    key.decrypt_block(&mut block, 0);
    assert_eq!(block, sample_block());
}

#[test]
fn round_trip_level3() {
    let key = Key1::init3(0x4A414441);
    let mut block = sample_block();
    key.encrypt_block(&mut block, 0);
    key.decrypt_block(&mut block, 0);
    assert_eq!(block, sample_block());
}

#[test]
fn encrypt_changes_block() {
    let key = Key1::init3(0x23232323);
    let mut block = sample_block();
    key.encrypt_block(&mut block, 0);
    assert_ne!(block, sample_block());
}

#[test]
fn levels_differ() {
    let mut b1 = sample_block();
    let mut b2 = sample_block();
    Key1::init1(0x23232323).encrypt_block(&mut b1, 0);
    Key1::init2(0x23232323).encrypt_block(&mut b2, 0);
    assert_ne!(b1, b2);
}

#[test]
fn block_offset_respected() {
    let key = Key1::init1(1);
    let mut data = vec![0u8; 24];
    data[8..16].copy_from_slice(&sample_block());
    key.encrypt_block(&mut data, 8);
    assert_eq!(&data[0..8], &[0u8; 8]);
    assert_eq!(&data[16..24], &[0u8; 8]);
    assert_ne!(&data[8..16], &sample_block()[..]);
    key.decrypt_block(&mut data, 8);
    assert_eq!(&data[8..16], &sample_block()[..]);
}

#[test]
fn zero_block_round_trip() {
    let key = Key1::init2(0);
    let mut block = vec![0u8; 8];
    key.encrypt_block(&mut block, 0);
    key.decrypt_block(&mut block, 0);
    assert_eq!(block, vec![0u8; 8]);
}
