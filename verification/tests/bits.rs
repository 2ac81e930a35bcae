use advantic::bits::{read_bytes, read_u16, Bits};

#[test]
fn bits_are_counted_from_the_lowest() {
    assert!(0b1000_0000u8.bit(7));
    assert!(!0b1000_0000u8.bit(6));
    assert!(0x8000u16.bit(15));
    assert!(!0x7fffu16.bit(15));
    assert!(0x8000_0000u32.bit(31));
    assert!(0x0000_0001u32.bit(0));
}

#[test]
fn setting_a_bit_leaves_the_others() {
    let mut byte = 0b0101_0101u8;
    byte.set_bit(1, true);
    assert_eq!(byte, 0b0101_0111);
    byte.set_bit(0, false);
    assert_eq!(byte, 0b0101_0110);
    let mut half = 0xffffu16;
    half.set_bit(8, false);
    assert_eq!(half, 0xfeff);
    let mut word = 0u32;
    word.set_bit(31, true);
    assert_eq!(word, 0x8000_0000);
    word.set_bit(31, true);
    assert_eq!(word, 0x8000_0000);
}

#[test]
fn numbers_are_little_endian() {
    let bytes = [0x78, 0x56, 0x34, 0x12, 0xef];
    assert_eq!(read_u16(&bytes, 0), 0x5678);
    assert_eq!(read_u16(&bytes, 3), 0xef12);
    assert_eq!(read_bytes(&bytes, 0), 0x1234_5678);
    assert_eq!(read_bytes(&bytes, 1), 0xef12_3456);
}
