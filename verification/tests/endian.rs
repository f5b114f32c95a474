//! Tests for the byte-order primitives.

use bitcoin::util::endian::slice_to_u16_le;
use bitcoin::util::endian::slice_to_u32_be;
use bitcoin::util::endian::slice_to_u32_le;
use bitcoin::util::endian::slice_to_u64_le;
use bitcoin::util::endian::u16_to_array_le;
use bitcoin::util::endian::u32_to_array_be;
use bitcoin::util::endian::u32_to_array_le;
use bitcoin::util::endian::u64_to_array_le;

#[test]
fn endianness_test() {
    assert_eq!(slice_to_u32_be(&[0xde, 0xad, 0xbe, 0xef]), 0xdeadbeef);
    assert_eq!(u32_to_array_be(0xdeadbeef), [0xde, 0xad, 0xbe, 0xef]);
    assert_eq!(slice_to_u16_le(&[0xad, 0xde]), 0xdead);
    assert_eq!(slice_to_u32_le(&[0xef, 0xbe, 0xad, 0xde]), 0xdeadbeef);
    assert_eq!(
        slice_to_u64_le(&[0xef, 0xbe, 0xad, 0xde, 0xfe, 0xca, 0xad, 0x1b]),
        0x1badcafedeadbeef
    );
}

#[test]
fn le_write_read_round_trip() {
    assert_eq!(u16_to_array_le(0xdead), [0xad, 0xde]);
    assert_eq!(u32_to_array_le(0xdeadbeef), [0xef, 0xbe, 0xad, 0xde]);
    assert_eq!(
        u64_to_array_le(0x1badcafedeadbeef),
        [0xef, 0xbe, 0xad, 0xde, 0xfe, 0xca, 0xad, 0x1b]
    );
    assert_eq!(slice_to_u64_le(&u64_to_array_le(0x0123456789abcdef)), 0x0123456789abcdef);
    assert_eq!(slice_to_u32_be(&u32_to_array_be(0x01020304)), 0x01020304);
}
