use bincode_embedded::endian::{
    read_i128, read_i16, read_i32, read_i64, read_i8, read_u128, read_u16, read_u32, read_u64,
    write_i128, write_i16, write_i32, write_i64, write_i8, write_u128, write_u16, write_u32,
    write_u64,
};
use bincode_embedded::Endian;

#[test]
fn u16_big_endian_bytes() {
    assert_eq!(write_u16(Endian::Big, 0x0102), [0x01, 0x02]);
    assert_eq!(read_u16(Endian::Big, &[0x01, 0x02]), 0x0102);
}

#[test]
fn u16_little_endian_bytes() {
    assert_eq!(write_u16(Endian::Little, 0x0102), [0x02, 0x01]);
    assert_eq!(read_u16(Endian::Little, &[0x02, 0x01]), 0x0102);
}

#[test]
fn u32_big_endian_bytes() {
    assert_eq!(write_u32(Endian::Big, 0x0102_0304), [1, 2, 3, 4]);
    assert_eq!(read_u32(Endian::Big, &[1, 2, 3, 4]), 0x0102_0304);
}

#[test]
fn u32_little_endian_bytes() {
    assert_eq!(write_u32(Endian::Little, 0x0102_0304), [4, 3, 2, 1]);
    assert_eq!(read_u32(Endian::Little, &[4, 3, 2, 1]), 0x0102_0304);
}

#[test]
fn u64_big_endian_bytes() {
    assert_eq!(write_u64(Endian::Big, 0x0102_0304_0506_0708), [1, 2, 3, 4, 5, 6, 7, 8]);
    assert_eq!(read_u64(Endian::Big, &[1, 2, 3, 4, 5, 6, 7, 8]), 0x0102_0304_0506_0708);
}

#[test]
fn u64_little_endian_bytes() {
    assert_eq!(write_u64(Endian::Little, 0x0102_0304_0506_0708), [8, 7, 6, 5, 4, 3, 2, 1]);
    assert_eq!(read_u64(Endian::Little, &[8, 7, 6, 5, 4, 3, 2, 1]), 0x0102_0304_0506_0708);
}

#[test]
fn u128_big_endian_bytes() {
    let v: u128 = 0x0102_0304_0506_0708_090A_0B0C_0D0E_0F10;
    let bytes = [1, 2, 3, 4, 5, 6, 7, 8, 9, 10, 11, 12, 13, 14, 15, 16];
    assert_eq!(write_u128(Endian::Big, v), bytes);
    assert_eq!(read_u128(Endian::Big, &bytes), v);
}

#[test]
fn u128_little_endian_bytes() {
    let v: u128 = 0x0102_0304_0506_0708_090A_0B0C_0D0E_0F10;
    let bytes = [16, 15, 14, 13, 12, 11, 10, 9, 8, 7, 6, 5, 4, 3, 2, 1];
    assert_eq!(write_u128(Endian::Little, v), bytes);
    assert_eq!(read_u128(Endian::Little, &bytes), v);
}

#[test]
fn reading_takes_the_first_bytes_only() {
    assert_eq!(read_u16(Endian::Big, &[0x01, 0x02, 0xFF, 0xFF]), 0x0102);
    assert_eq!(read_u32(Endian::Little, &[4, 3, 2, 1, 0xFF]), 0x0102_0304);
    assert_eq!(read_u64(Endian::Big, &[0, 0, 0, 0, 0, 0, 0, 9, 0xFF]), 9);
    let mut long = [0u8; 20];
    long[15] = 7;
    long[16] = 0xFF;
    assert_eq!(read_u128(Endian::Big, &long), 7);
}

#[test]
fn signed_integers_are_twos_complement() {
    assert_eq!(write_i8(-1), 0xFF);
    assert_eq!(write_i8(i8::MIN), 0x80);
    assert_eq!(write_i8(i8::MAX), 0x7F);
    assert_eq!(write_i16(Endian::Big, -2), [0xFF, 0xFE]);
    assert_eq!(write_i16(Endian::Little, -2), [0xFE, 0xFF]);
    assert_eq!(write_i32(Endian::Big, -2), [0xFF, 0xFF, 0xFF, 0xFE]);
    assert_eq!(write_i64(Endian::Big, i64::MIN), [0x80, 0, 0, 0, 0, 0, 0, 0]);
    assert_eq!(write_i128(Endian::Little, -1), [0xFF; 16]);
    assert_eq!(write_i32(Endian::Little, 1), [1, 0, 0, 0]);
}

#[test]
fn signed_integers_read_back() {
    assert_eq!(read_i8(0xFF), -1);
    assert_eq!(read_i8(0x80), i8::MIN);
    assert_eq!(read_i8(0x7F), i8::MAX);
    assert_eq!(read_i16(Endian::Big, &[0xFF, 0xFE]), -2);
    assert_eq!(read_i16(Endian::Little, &[0xFF, 0x7F]), i16::MAX);
    assert_eq!(read_i32(Endian::Big, &[0x80, 0, 0, 0]), i32::MIN);
    assert_eq!(read_i64(Endian::Little, &[0xFE, 0xFF, 0xFF, 0xFF, 0xFF, 0xFF, 0xFF, 0xFF]), -2);
    assert_eq!(read_i128(Endian::Big, &[0xFF; 16]), -1);
    let mut least = [0u8; 16];
    least[15] = 0x80;
    assert_eq!(read_i128(Endian::Little, &least), i128::MIN);
}

#[test]
fn every_integer_reads_back_in_both_orders() {
    for order in [Endian::Big, Endian::Little] {
        for v in [0u16, 1, 0x00FF, 0x0100, 0xABCD, u16::MAX] {
            assert_eq!(read_u16(order, &write_u16(order, v)), v);
        }
        for v in [0u32, 1, 0xDEAD_BEEF, u32::MAX] {
            assert_eq!(read_u32(order, &write_u32(order, v)), v);
        }
        for v in [0u64, 1, 0xDEAD_BEEF_0BAD_F00D, u64::MAX] {
            assert_eq!(read_u64(order, &write_u64(order, v)), v);
        }
        for v in [0u128, 1, u128::MAX / 3, u128::MAX] {
            assert_eq!(read_u128(order, &write_u128(order, v)), v);
        }
        for v in [i16::MIN, -1, 0, 1, i16::MAX] {
            assert_eq!(read_i16(order, &write_i16(order, v)), v);
        }
        for v in [i32::MIN, -1, 0, 1, i32::MAX] {
            assert_eq!(read_i32(order, &write_i32(order, v)), v);
        }
        for v in [i64::MIN, -1, 0, 1, i64::MAX] {
            assert_eq!(read_i64(order, &write_i64(order, v)), v);
        }
        for v in [i128::MIN, -1, 0, 1, i128::MAX] {
            assert_eq!(read_i128(order, &write_i128(order, v)), v);
        }
    }
    for v in [i8::MIN, -1, 0, 1, i8::MAX] {
        assert_eq!(read_i8(write_i8(v)), v);
    }
}
