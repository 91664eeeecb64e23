//! The fixed-capacity string codecs: NUL-terminated length scan, strict
//! decoding with the position of the first violation, and lossy decoding
//! with one replacement character per maximal invalid run.

use ndsrom::ascii::Ascii;
use ndsrom::utf16::Utf16;

#[test]
fn ascii_len_stops_at_nul() {
    let s = Ascii::new(vec![b'A', b'B', 0, b'C']);
    assert_eq!(s.len(), 2);
    assert_eq!(s.as_bytes(), b"AB");
}

#[test]
fn ascii_len_full_capacity() {
    let s = Ascii::new(vec![b'A', b'B', b'C']);
    assert_eq!(s.len(), 3);
    assert_eq!(s.as_bytes(), b"ABC");
}

#[test]
fn ascii_empty_capacity() {
    let s = Ascii::new(Vec::new());
    assert_eq!(s.len(), 0);
    assert_eq!(s.to_str().unwrap(), "");
}

#[test]
fn ascii_strict_ok() {
    let s = Ascii::new(vec![b'N', b'D', b'S', 0, 0]);
    assert_eq!(s.to_str().unwrap(), "NDS");
}

#[test]
fn ascii_strict_reports_first_violation() {
    let s = Ascii::new(vec![b'A', b'B', 0x80, b'C']);
    let err = s.to_str().unwrap_err();
    assert_eq!(err.valid_up_to(), 2);
}

#[test]
fn ascii_lossy_single_run() {
    // Two adjacent invalid bytes form one maximal run: one replacement.
    let s = Ascii::new(vec![b'A', 0x80, 0x81, b'B']);
    assert_eq!(s.to_string_lossy(), "A\u{FFFD}B");
}

#[test]
fn ascii_lossy_two_runs() {
    let s = Ascii::new(vec![0xFF, b'x', 0xFE, 0xFD]);
    assert_eq!(s.to_string_lossy(), "\u{FFFD}x\u{FFFD}");
}

#[test]
fn ascii_lossy_all_valid() {
    let s = Ascii::new(vec![b'o', b'k']);
    assert_eq!(s.to_string_lossy(), "ok");
}

#[test]
fn utf16_len_stops_at_nul() {
    let s = Utf16::new(vec![0x41, 0x42, 0, 0x43]);
    assert_eq!(s.len(), 2);
    assert_eq!(s.units(), &vec![0x41, 0x42, 0, 0x43]);
}

#[test]
fn utf16_strict_ok() {
    let s = Utf16::new(vec![0x41, 0x3042, 0, 0]);
    assert_eq!(s.to_string().unwrap(), "A\u{3042}");
}

#[test]
fn utf16_surrogate_pair() {
    // U+10000 encoded as the pair D800 DC00.
    let s = Utf16::new(vec![0xD800, 0xDC00, 0]);
    assert_eq!(s.to_string().unwrap(), "\u{10000}");
}

#[test]
fn utf16_strict_reports_first_violation() {
    let s = Utf16::new(vec![0x41, 0xDC00, 0x42]);
    let err = s.to_string().unwrap_err();
    assert_eq!(err.valid_up_to(), 1);
}

#[test]
fn utf16_lossy_collapses_run() {
    // Two adjacent lone surrogates form one maximal run.
    let s = Utf16::new(vec![0xD800, 0xD801, 0x41]);
    assert_eq!(s.to_string_lossy(), "\u{FFFD}A");
}

#[test]
fn utf16_lossy_keeps_pair_after_lone_high() {
    // A lone high surrogate right before a valid pair: the pair decodes.
    let s = Utf16::new(vec![0xD800, 0xD800, 0xDC00, 0x42]);
    assert_eq!(s.to_string_lossy(), "\u{FFFD}\u{10000}B");
}

#[test]
fn utf16_lossy_all_valid() {
    let s = Utf16::new(vec![0x6F, 0x6B]);
    assert_eq!(s.to_string_lossy(), "ok");
}
