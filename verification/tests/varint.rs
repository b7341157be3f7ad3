use dex::codec::{read_sleb, read_u32, read_uleb, Endian};
use dex::error::Error;

#[test]
fn uleb_single_byte() {
    let buf: Vec<u8> = vec![0x05];
    assert_eq!(read_uleb(&buf, 0).unwrap(), (5, 1));
}

#[test]
fn uleb_two_bytes() {
    let buf: Vec<u8> = vec![0x80, 0x01];
    assert_eq!(read_uleb(&buf, 0).unwrap(), (128, 2));
}

#[test]
fn uleb_large_value() {
    // 624485 = 0xE5 0x8E 0x26 in ULEB128
    let buf: Vec<u8> = vec![0xe5, 0x8e, 0x26];
    assert_eq!(read_uleb(&buf, 0).unwrap(), (624485, 3));
}

#[test]
fn uleb_unterminated_is_malformed() {
    let buf: Vec<u8> = vec![0x80];
    assert!(matches!(read_uleb(&buf, 0), Err(Error::MalFormed(_))));
}

#[test]
fn uleb_empty_is_malformed() {
    let buf: Vec<u8> = vec![];
    assert!(matches!(read_uleb(&buf, 0), Err(Error::MalFormed(_))));
}

#[test]
fn sleb_minus_one() {
    let buf: Vec<u8> = vec![0x7f];
    assert_eq!(read_sleb(&buf, 0).unwrap(), (-1, 1));
}

#[test]
fn sleb_positive_terminal() {
    let buf: Vec<u8> = vec![0x3f];
    assert_eq!(read_sleb(&buf, 0).unwrap(), (63, 1));
}

#[test]
fn sleb_minus_128() {
    let buf: Vec<u8> = vec![0x80, 0x7f];
    assert_eq!(read_sleb(&buf, 0).unwrap(), (-128, 2));
}

#[test]
fn sleb_unterminated_is_malformed() {
    let buf: Vec<u8> = vec![0xff];
    assert!(matches!(read_sleb(&buf, 0), Err(Error::MalFormed(_))));
}

#[test]
fn u32_little_endian() {
    let buf: Vec<u8> = vec![0x05, 0x06, 0x07, 0x08];
    assert_eq!(read_u32(&buf, 0, Endian::Little).unwrap(), 0x08070605);
}

#[test]
fn u32_big_endian() {
    let buf: Vec<u8> = vec![0x05, 0x06, 0x07, 0x08];
    assert_eq!(read_u32(&buf, 0, Endian::Big).unwrap(), 0x05060708);
}

#[test]
fn u32_truncated_is_malformed() {
    let buf: Vec<u8> = vec![0x05, 0x06, 0x07];
    assert!(matches!(read_u32(&buf, 0, Endian::Little), Err(Error::MalFormed(_))));
}
