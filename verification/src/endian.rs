//! Fixed-width integers as bytes, in either byte order.
//!
//! The bytes themselves come from the `byteorder` crate. This module says
//! what they are: the base-256 digits of the number, most or least
//! significant first, with negative numbers in two's complement. Of each
//! call into `byteorder` that statement is taken from the crate's source and
//! not proved; the functions around the calls are proved from it.

use byteorder::ByteOrder;
use vstd::prelude::*;

verus! {

/// The byte order of every multi-byte integer of one encoding. Both ends
/// have to agree on it; nothing on the wire tells it.
#[derive(Clone, Copy, Debug, PartialEq, Eq, Structural)]
pub enum Endian {
    /// Most significant byte first (network order).
    Big,
    /// Least significant byte first.
    Little,
}

/// 256 to the power `n`: how many numbers fit in `n` bytes.
pub open spec fn radix(n: nat) -> nat
    decreases n,
{
    if n == 0 {
        1
    } else {
        256 * radix((n - 1) as nat)
    }
}

/// The `n` low base-256 digits of `v`, least significant first.
pub open spec fn le_digits(v: nat, n: nat) -> Seq<u8>
    decreases n,
{
    if n == 0 {
        Seq::empty()
    } else {
        seq![(v % 256) as u8] + le_digits(v / 256, (n - 1) as nat)
    }
}

/// The number whose base-256 digits, least significant first, are `s`.
pub open spec fn le_value(s: Seq<u8>) -> nat
    decreases s.len(),
{
    if s.len() == 0 {
        0
    } else {
        s[0] as nat + 256 * le_value(s.drop_first())
    }
}

/// The `n` bytes that stand for `v` in the given order.
pub open spec fn uint_bytes(order: Endian, v: nat, n: nat) -> Seq<u8> {
    match order {
        Endian::Little => le_digits(v, n),
        Endian::Big => le_digits(v, n).reverse(),
    }
}

/// The number that the bytes `s` stand for in the given order.
pub open spec fn uint_value(order: Endian, s: Seq<u8>) -> nat {
    match order {
        Endian::Little => le_value(s),
        Endian::Big => le_value(s.reverse()),
    }
}

/// The unsigned number with the same `n` bytes as the signed `v`.
pub open spec fn to_unsigned(v: int, n: nat) -> nat {
    if v < 0 {
        (v + radix(n)) as nat
    } else {
        v as nat
    }
}

/// The signed number with the same `n` bytes as the unsigned `u`.
pub open spec fn to_signed(u: nat, n: nat) -> int {
    if 2 * u >= radix(n) {
        u - radix(n)
    } else {
        u as int
    }
}

/// The powers of 256 at the widths in use.
pub proof fn lemma_radix_values()
    ensures
        radix(0) == 1,
        radix(1) == 0x100,
        radix(2) == 0x1_0000,
        radix(4) == 0x1_0000_0000,
        radix(8) == 0x1_0000_0000_0000_0000,
        radix(16) == 0x1_0000_0000_0000_0000_0000_0000_0000_0000,
{
    reveal_with_fuel(radix, 17);
}

/// A number has as many digits as were asked for.
pub proof fn lemma_le_digits_len(v: nat, n: nat)
    ensures
        le_digits(v, n).len() == n,
    decreases n,
{
    if n > 0 {
        lemma_le_digits_len(v / 256, (n - 1) as nat);
    }
}

/// Reading back the digits of a number that fits gives the number.
pub proof fn lemma_le_value_of_digits(v: nat, n: nat)
    requires
        v < radix(n),
    ensures
        le_value(le_digits(v, n)) == v,
    decreases n,
{
    if n > 0 {
        let rest = le_digits(v / 256, (n - 1) as nat);
        let all = le_digits(v, n);
        lemma_le_digits_len(v / 256, (n - 1) as nat);
        assert(all.drop_first() =~= rest);
        assert(v / 256 < radix((n - 1) as nat));
        lemma_le_value_of_digits(v / 256, (n - 1) as nat);
        assert(v == (v % 256) + 256 * (v / 256));
    }
}

/// The bytes of a number are as many as were asked for.
pub proof fn lemma_uint_bytes_len(order: Endian, v: nat, n: nat)
    ensures
        uint_bytes(order, v, n).len() == n,
{
    lemma_le_digits_len(v, n);
}

/// The bytes of a number that fits stand for that number.
pub proof fn lemma_uint_value_of_bytes(order: Endian, v: nat, n: nat)
    requires
        v < radix(n),
    ensures
        uint_value(order, uint_bytes(order, v, n)) == v,
{
    lemma_le_value_of_digits(v, n);
    assert(le_digits(v, n).reverse().reverse() =~= le_digits(v, n));
}

/// Signed and unsigned numbers of one width pair off.
pub proof fn lemma_signed_unsigned(v: int, n: nat)
    requires
        n > 0,
        -(radix(n) / 2) <= v < radix(n) / 2,
    ensures
        to_unsigned(v, n) < radix(n),
        to_signed(to_unsigned(v, n), n) == v,
{
    assert(radix(n) == 256 * radix((n - 1) as nat));
}

/// One byte stands for itself in either order.
pub proof fn lemma_single_byte(order: Endian, v: nat)
    requires
        v < 0x100,
    ensures
        uint_bytes(order, v, 1) == seq![v as u8],
        uint_value(order, seq![v as u8]) == v,
{
    reveal_with_fuel(le_digits, 2);
    reveal_with_fuel(le_value, 2);
    let one = seq![v as u8];
    assert(le_digits(v, 1) =~= one);
    assert(one.reverse() =~= one);
    assert(one.drop_first() =~= Seq::<u8>::empty());
}

/// `byteorder::BigEndian::write_u16` on a fresh buffer of 2 bytes, which
/// then holds `v`, most significant byte first.
#[verifier::external_body]
fn be_write_u16(v: u16) -> (b: [u8; 2])
    ensures
        b@ == uint_bytes(Endian::Big, v as nat, 2),
{
    let mut b = [0u8; 2];
    byteorder::BigEndian::write_u16(&mut b, v);
    b
}

/// `byteorder::BigEndian::read_u16`: the number that the first 2 bytes of
/// `buf` stand for, most significant byte first. It panics on a shorter buffer.
#[verifier::external_body]
fn be_read_u16(buf: &[u8]) -> (v: u16)
    requires
        buf@.len() >= 2,
    ensures
        v as nat == uint_value(Endian::Big, buf@.take(2)),
{
    byteorder::BigEndian::read_u16(buf)
}

/// `byteorder::LittleEndian::write_u16` on a fresh buffer of 2 bytes, which
/// then holds `v`, least significant byte first.
#[verifier::external_body]
fn le_write_u16(v: u16) -> (b: [u8; 2])
    ensures
        b@ == uint_bytes(Endian::Little, v as nat, 2),
{
    let mut b = [0u8; 2];
    byteorder::LittleEndian::write_u16(&mut b, v);
    b
}

/// `byteorder::LittleEndian::read_u16`: the number that the first 2 bytes of
/// `buf` stand for, least significant byte first. It panics on a shorter buffer.
#[verifier::external_body]
fn le_read_u16(buf: &[u8]) -> (v: u16)
    requires
        buf@.len() >= 2,
    ensures
        v as nat == uint_value(Endian::Little, buf@.take(2)),
{
    byteorder::LittleEndian::read_u16(buf)
}

/// `byteorder::BigEndian::write_u32` on a fresh buffer of 4 bytes, which
/// then holds `v`, most significant byte first.
#[verifier::external_body]
fn be_write_u32(v: u32) -> (b: [u8; 4])
    ensures
        b@ == uint_bytes(Endian::Big, v as nat, 4),
{
    let mut b = [0u8; 4];
    byteorder::BigEndian::write_u32(&mut b, v);
    b
}

/// `byteorder::BigEndian::read_u32`: the number that the first 4 bytes of
/// `buf` stand for, most significant byte first. It panics on a shorter buffer.
#[verifier::external_body]
fn be_read_u32(buf: &[u8]) -> (v: u32)
    requires
        buf@.len() >= 4,
    ensures
        v as nat == uint_value(Endian::Big, buf@.take(4)),
{
    byteorder::BigEndian::read_u32(buf)
}

/// `byteorder::LittleEndian::write_u32` on a fresh buffer of 4 bytes, which
/// then holds `v`, least significant byte first.
#[verifier::external_body]
fn le_write_u32(v: u32) -> (b: [u8; 4])
    ensures
        b@ == uint_bytes(Endian::Little, v as nat, 4),
{
    let mut b = [0u8; 4];
    byteorder::LittleEndian::write_u32(&mut b, v);
    b
}

/// `byteorder::LittleEndian::read_u32`: the number that the first 4 bytes of
/// `buf` stand for, least significant byte first. It panics on a shorter buffer.
#[verifier::external_body]
fn le_read_u32(buf: &[u8]) -> (v: u32)
    requires
        buf@.len() >= 4,
    ensures
        v as nat == uint_value(Endian::Little, buf@.take(4)),
{
    byteorder::LittleEndian::read_u32(buf)
}

/// `byteorder::BigEndian::write_u64` on a fresh buffer of 8 bytes, which
/// then holds `v`, most significant byte first.
#[verifier::external_body]
fn be_write_u64(v: u64) -> (b: [u8; 8])
    ensures
        b@ == uint_bytes(Endian::Big, v as nat, 8),
{
    let mut b = [0u8; 8];
    byteorder::BigEndian::write_u64(&mut b, v);
    b
}

/// `byteorder::BigEndian::read_u64`: the number that the first 8 bytes of
/// `buf` stand for, most significant byte first. It panics on a shorter buffer.
#[verifier::external_body]
fn be_read_u64(buf: &[u8]) -> (v: u64)
    requires
        buf@.len() >= 8,
    ensures
        v as nat == uint_value(Endian::Big, buf@.take(8)),
{
    byteorder::BigEndian::read_u64(buf)
}

/// `byteorder::LittleEndian::write_u64` on a fresh buffer of 8 bytes, which
/// then holds `v`, least significant byte first.
#[verifier::external_body]
fn le_write_u64(v: u64) -> (b: [u8; 8])
    ensures
        b@ == uint_bytes(Endian::Little, v as nat, 8),
{
    let mut b = [0u8; 8];
    byteorder::LittleEndian::write_u64(&mut b, v);
    b
}

/// `byteorder::LittleEndian::read_u64`: the number that the first 8 bytes of
/// `buf` stand for, least significant byte first. It panics on a shorter buffer.
#[verifier::external_body]
fn le_read_u64(buf: &[u8]) -> (v: u64)
    requires
        buf@.len() >= 8,
    ensures
        v as nat == uint_value(Endian::Little, buf@.take(8)),
{
    byteorder::LittleEndian::read_u64(buf)
}

/// `byteorder::BigEndian::write_u128` on a fresh buffer of 16 bytes, which
/// then holds `v`, most significant byte first.
#[verifier::external_body]
fn be_write_u128(v: u128) -> (b: [u8; 16])
    ensures
        b@ == uint_bytes(Endian::Big, v as nat, 16),
{
    let mut b = [0u8; 16];
    byteorder::BigEndian::write_u128(&mut b, v);
    b
}

/// `byteorder::BigEndian::read_u128`: the number that the first 16 bytes of
/// `buf` stand for, most significant byte first. It panics on a shorter buffer.
#[verifier::external_body]
fn be_read_u128(buf: &[u8]) -> (v: u128)
    requires
        buf@.len() >= 16,
    ensures
        v as nat == uint_value(Endian::Big, buf@.take(16)),
{
    byteorder::BigEndian::read_u128(buf)
}

/// `byteorder::LittleEndian::write_u128` on a fresh buffer of 16 bytes, which
/// then holds `v`, least significant byte first.
#[verifier::external_body]
fn le_write_u128(v: u128) -> (b: [u8; 16])
    ensures
        b@ == uint_bytes(Endian::Little, v as nat, 16),
{
    let mut b = [0u8; 16];
    byteorder::LittleEndian::write_u128(&mut b, v);
    b
}

/// `byteorder::LittleEndian::read_u128`: the number that the first 16 bytes of
/// `buf` stand for, least significant byte first. It panics on a shorter buffer.
#[verifier::external_body]
fn le_read_u128(buf: &[u8]) -> (v: u128)
    requires
        buf@.len() >= 16,
    ensures
        v as nat == uint_value(Endian::Little, buf@.take(16)),
{
    byteorder::LittleEndian::read_u128(buf)
}

/// The 2 bytes of `v` in the given order.
pub fn write_u16(order: Endian, v: u16) -> (b: [u8; 2])
    ensures
        b@ == uint_bytes(order, v as nat, 2),
{
    match order {
        Endian::Big => be_write_u16(v),
        Endian::Little => le_write_u16(v),
    }
}

/// The number that the first 2 bytes of `buf` stand for in the given order.
pub fn read_u16(order: Endian, buf: &[u8]) -> (v: u16)
    requires
        buf@.len() >= 2,
    ensures
        v as nat == uint_value(order, buf@.take(2)),
{
    match order {
        Endian::Big => be_read_u16(buf),
        Endian::Little => le_read_u16(buf),
    }
}

/// The 2 bytes of `v`, in two's complement, in the given order.
pub fn write_i16(order: Endian, v: i16) -> (b: [u8; 2])
    ensures
        b@ == uint_bytes(order, to_unsigned(v as int, 2), 2),
{
    proof {
        lemma_radix_values();
    }
    let u: u16 = if v < 0 {
        let low: u16 = (v - i16::MIN) as u16;
        low + 0x8000
    } else {
        v as u16
    };
    write_u16(order, u)
}

/// The number that the first 2 bytes of `buf` stand for in the given order,
/// read as two's complement.
pub fn read_i16(order: Endian, buf: &[u8]) -> (v: i16)
    requires
        buf@.len() >= 2,
    ensures
        v as int == to_signed(uint_value(order, buf@.take(2)), 2),
{
    proof {
        lemma_radix_values();
    }
    let u: u16 = read_u16(order, buf);
    if u >= 0x8000 {
        let low: i16 = (u - 0x8000) as i16;
        low + i16::MIN
    } else {
        u as i16
    }
}

/// The 4 bytes of `v` in the given order.
pub fn write_u32(order: Endian, v: u32) -> (b: [u8; 4])
    ensures
        b@ == uint_bytes(order, v as nat, 4),
{
    match order {
        Endian::Big => be_write_u32(v),
        Endian::Little => le_write_u32(v),
    }
}

/// The number that the first 4 bytes of `buf` stand for in the given order.
pub fn read_u32(order: Endian, buf: &[u8]) -> (v: u32)
    requires
        buf@.len() >= 4,
    ensures
        v as nat == uint_value(order, buf@.take(4)),
{
    match order {
        Endian::Big => be_read_u32(buf),
        Endian::Little => le_read_u32(buf),
    }
}

/// The 4 bytes of `v`, in two's complement, in the given order.
pub fn write_i32(order: Endian, v: i32) -> (b: [u8; 4])
    ensures
        b@ == uint_bytes(order, to_unsigned(v as int, 4), 4),
{
    proof {
        lemma_radix_values();
    }
    let u: u32 = if v < 0 {
        let low: u32 = (v - i32::MIN) as u32;
        low + 0x80000000
    } else {
        v as u32
    };
    write_u32(order, u)
}

/// The number that the first 4 bytes of `buf` stand for in the given order,
/// read as two's complement.
pub fn read_i32(order: Endian, buf: &[u8]) -> (v: i32)
    requires
        buf@.len() >= 4,
    ensures
        v as int == to_signed(uint_value(order, buf@.take(4)), 4),
{
    proof {
        lemma_radix_values();
    }
    let u: u32 = read_u32(order, buf);
    if u >= 0x80000000 {
        let low: i32 = (u - 0x80000000) as i32;
        low + i32::MIN
    } else {
        u as i32
    }
}

/// The 8 bytes of `v` in the given order.
pub fn write_u64(order: Endian, v: u64) -> (b: [u8; 8])
    ensures
        b@ == uint_bytes(order, v as nat, 8),
{
    match order {
        Endian::Big => be_write_u64(v),
        Endian::Little => le_write_u64(v),
    }
}

/// The number that the first 8 bytes of `buf` stand for in the given order.
pub fn read_u64(order: Endian, buf: &[u8]) -> (v: u64)
    requires
        buf@.len() >= 8,
    ensures
        v as nat == uint_value(order, buf@.take(8)),
{
    match order {
        Endian::Big => be_read_u64(buf),
        Endian::Little => le_read_u64(buf),
    }
}

/// The 8 bytes of `v`, in two's complement, in the given order.
pub fn write_i64(order: Endian, v: i64) -> (b: [u8; 8])
    ensures
        b@ == uint_bytes(order, to_unsigned(v as int, 8), 8),
{
    proof {
        lemma_radix_values();
    }
    let u: u64 = if v < 0 {
        let low: u64 = (v - i64::MIN) as u64;
        low + 0x8000000000000000
    } else {
        v as u64
    };
    write_u64(order, u)
}

/// The number that the first 8 bytes of `buf` stand for in the given order,
/// read as two's complement.
pub fn read_i64(order: Endian, buf: &[u8]) -> (v: i64)
    requires
        buf@.len() >= 8,
    ensures
        v as int == to_signed(uint_value(order, buf@.take(8)), 8),
{
    proof {
        lemma_radix_values();
    }
    let u: u64 = read_u64(order, buf);
    if u >= 0x8000000000000000 {
        let low: i64 = (u - 0x8000000000000000) as i64;
        low + i64::MIN
    } else {
        u as i64
    }
}

/// The 16 bytes of `v` in the given order.
pub fn write_u128(order: Endian, v: u128) -> (b: [u8; 16])
    ensures
        b@ == uint_bytes(order, v as nat, 16),
{
    match order {
        Endian::Big => be_write_u128(v),
        Endian::Little => le_write_u128(v),
    }
}

/// The number that the first 16 bytes of `buf` stand for in the given order.
pub fn read_u128(order: Endian, buf: &[u8]) -> (v: u128)
    requires
        buf@.len() >= 16,
    ensures
        v as nat == uint_value(order, buf@.take(16)),
{
    match order {
        Endian::Big => be_read_u128(buf),
        Endian::Little => le_read_u128(buf),
    }
}

/// The 16 bytes of `v`, in two's complement, in the given order.
pub fn write_i128(order: Endian, v: i128) -> (b: [u8; 16])
    ensures
        b@ == uint_bytes(order, to_unsigned(v as int, 16), 16),
{
    proof {
        lemma_radix_values();
    }
    let u: u128 = if v < 0 {
        let low: u128 = (v - i128::MIN) as u128;
        low + 0x80000000000000000000000000000000
    } else {
        v as u128
    };
    write_u128(order, u)
}

/// The number that the first 16 bytes of `buf` stand for in the given order,
/// read as two's complement.
pub fn read_i128(order: Endian, buf: &[u8]) -> (v: i128)
    requires
        buf@.len() >= 16,
    ensures
        v as int == to_signed(uint_value(order, buf@.take(16)), 16),
{
    proof {
        lemma_radix_values();
    }
    let u: u128 = read_u128(order, buf);
    if u >= 0x80000000000000000000000000000000 {
        let low: i128 = (u - 0x80000000000000000000000000000000) as i128;
        low + i128::MIN
    } else {
        u as i128
    }
}

/// The byte of `v` in two's complement.
pub fn write_i8(v: i8) -> (b: u8)
    ensures
        b as nat == to_unsigned(v as int, 1),
{
    proof {
        lemma_radix_values();
    }
    if v < 0 {
        let low: u8 = (v - i8::MIN) as u8;
        low + 0x80
    } else {
        v as u8
    }
}

/// The number that `b` stands for, read as two's complement.
pub fn read_i8(b: u8) -> (v: i8)
    ensures
        v as int == to_signed(b as nat, 1),
{
    proof {
        lemma_radix_values();
    }
    if b >= 0x80 {
        let low: i8 = (b - 0x80) as i8;
        low + i8::MIN
    } else {
        b as i8
    }
}

} // verus!
