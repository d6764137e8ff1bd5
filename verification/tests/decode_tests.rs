use cygwin_fs::decode::{string_from_utf_bom_lossy, symlink_target_from_bytes};

#[test]
fn reads_utf16le() {
    let data: Vec<u8> = vec![0xff, 0xfe, b'a', 0, b'b', 0];
    let s = string_from_utf_bom_lossy(&data);
    assert_eq!(s, "ab");
}

#[test]
fn reads_utf16be() {
    let data: Vec<u8> = vec![0xfe, 0xff, 0, b'a', 0, b'b'];
    let s = string_from_utf_bom_lossy(&data);
    assert_eq!(s, "ab");
}

#[test]
fn reads_utf8_when_no_utf16bom() {
    let data: Vec<u8> = vec![b'a', b'b'];
    let s = string_from_utf_bom_lossy(&data);
    assert_eq!(s, "ab");
}

#[test]
fn reads_empty_and_short_payloads_as_utf8() {
    assert_eq!(string_from_utf_bom_lossy(&Vec::new()), "");
    assert_eq!(string_from_utf_bom_lossy(&vec![b'x']), "x");
}

#[test]
fn utf16_stops_at_embedded_zero_unit() {
    // "a", then a zero unit, then "b": decoding stops before "b".
    let data: Vec<u8> = vec![0xff, 0xfe, b'a', 0, 0, 0, b'b', 0];
    assert_eq!(string_from_utf_bom_lossy(&data), "a");
}

#[test]
fn utf16_keeps_a_zero_unit_at_the_very_start() {
    let data: Vec<u8> = vec![0xff, 0xfe, 0, 0, b'a', 0];
    assert_eq!(string_from_utf_bom_lossy(&data), "\u{0}a");
}

#[test]
fn utf16_ignores_trailing_odd_byte() {
    let data: Vec<u8> = vec![0xfe, 0xff, 0, b'a', 0];
    assert_eq!(string_from_utf_bom_lossy(&data), "a");
}

#[test]
fn utf16_bom_alone_is_empty() {
    assert_eq!(string_from_utf_bom_lossy(&vec![0xff, 0xfe]), "");
    assert_eq!(string_from_utf_bom_lossy(&vec![0xfe, 0xff]), "");
}

#[test]
fn utf16_replaces_unpaired_surrogate() {
    let data: Vec<u8> = vec![0xff, 0xfe, 0x00, 0xd8];
    assert_eq!(string_from_utf_bom_lossy(&data), "\u{fffd}");
}

#[test]
fn utf8_replaces_invalid_sequences() {
    let data: Vec<u8> = vec![b'a', 0xc3, 0x28, b'b'];
    assert_eq!(string_from_utf_bom_lossy(&data), "a\u{fffd}(b");
}

fn link_bytes(target: &str) -> Vec<u8> {
    let mut v: Vec<u8> = b"!<symlink>".to_vec();
    v.extend_from_slice(target.as_bytes());
    v
}

#[test]
fn decodes_target_behind_magic_marker() {
    let v = link_bytes("/tmp/dest");
    assert_eq!(symlink_target_from_bytes(&v), Some(String::from("/tmp/dest")));
}

#[test]
fn decodes_utf16_target_behind_magic_marker() {
    let mut v: Vec<u8> = b"!<symlink>".to_vec();
    v.extend_from_slice(&[0xff, 0xfe, b'a', 0, b'b', 0]);
    assert_eq!(symlink_target_from_bytes(&v), Some(String::from("ab")));
}

#[test]
fn rejects_bytes_without_magic_marker() {
    assert_eq!(symlink_target_from_bytes(&b"plain file".to_vec()), None);
    assert_eq!(symlink_target_from_bytes(&b"!<symlin".to_vec()), None);
    assert_eq!(symlink_target_from_bytes(&Vec::new()), None);
}

#[test]
fn magic_marker_alone_yields_empty_target() {
    assert_eq!(symlink_target_from_bytes(&b"!<symlink>".to_vec()), Some(String::new()));
}
