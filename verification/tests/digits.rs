use mq_bridge::digits::{be_bytes_u128, be_u128, decimal_i64, decimal_u64, hex32, parse_i64_text, parse_u128_text};
use mq_bridge::framing::buffered_frames;

#[test]
fn numbers_are_written_in_decimal() {
    assert_eq!(decimal_u64(0), "0");
    assert_eq!(decimal_u64(1200), "1200");
    assert_eq!(decimal_i64(-7), "-7");
    assert_eq!(decimal_i64(i64::MIN), i64::MIN.to_string());
}

#[test]
fn ids_are_written_as_32_hex_digits() {
    assert_eq!(hex32(255), "000000000000000000000000000000ff");
    assert_eq!(hex32(u128::MAX), "ffffffffffffffffffffffffffffffff");
}

#[test]
fn big_endian_bytes_read_back() {
    let id: u128 = 0x00112233445566778899aabbccddeeff;
    let bytes = be_bytes_u128(id);
    assert_eq!(bytes, id.to_be_bytes().to_vec());
    assert_eq!(be_u128(&bytes), id);
}

#[test]
fn numerals_are_read_as_std_reads_them() {
    assert_eq!(parse_i64_text("-0"), Some(0));
    assert_eq!(parse_i64_text("+"), None);
    assert_eq!(parse_i64_text(""), None);
    assert_eq!(parse_u128_text("ff", 16), Some(255));
    assert_eq!(parse_u128_text("340282366920938463463374607431768211456", 10), None);
    assert_eq!(parse_u128_text("340282366920938463463374607431768211455", 10), Some(u128::MAX));
}

#[test]
fn buffered_frames_counts_whole_frames_only() {
    let mut buf = Vec::new();
    buf.extend_from_slice(&1u32.to_be_bytes());
    buf.push(b'a');
    buf.extend_from_slice(&2u32.to_be_bytes());
    buf.extend_from_slice(b"bc");
    buf.extend_from_slice(&64u32.to_be_bytes());
    buf.extend_from_slice(&[0u8; 8]);
    assert_eq!(buffered_frames(&buf, false), 2);
    assert_eq!(buffered_frames(&buf, true), 0);
    assert_eq!(buffered_frames(&buf[..3], false), 0);
}
