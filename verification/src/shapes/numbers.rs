//! Truth values, integers, characters and the unit value.

use crate::deserialize::{Decode, DeserializeError, Deserializer};
use crate::endian::Endian;
use crate::io::{CoreRead, CoreWrite};
use crate::serialize::{Encode, SerializeError, Serializer};
use crate::wire::{Parsed, Shape};
use vstd::prelude::*;

verus! {

impl Shape for () {
    open spec fn fits(m: ()) -> bool {
        true
    }

    open spec fn wire(m: (), order: Endian) -> Seq<u8> {
        Seq::empty()
    }

    open spec fn parse(bytes: Seq<u8>, order: Endian) -> Parsed<()> {
        Ok(((), 0))
    }

    proof fn round_trip(m: (), order: Endian, rest: Seq<u8>) {
    }

    proof fn cut_short(m: (), order: Endian, k: nat) {
    }
}

impl Encode for () {
    /// The unit value takes no bytes: this succeeds whatever the writer is,
    /// and leaves the serializer as it was.
    fn encode<W: CoreWrite>(&self, serializer: &mut Serializer<'_, W>) -> (r: Result<
        (),
        SerializeError<W>,
    >)
        ensures
            r is Ok,
            *final(serializer) == *old(serializer),
    {
        serializer.serialize_unit()
    }
}

impl<'a> Decode<'a> for () {
    fn decode<R: CoreRead<'a>>(deserializer: &mut Deserializer<'a, R>) -> (r: Result<
        (),
        DeserializeError<'a, R>,
    >) {
        proof {
            assert(deserializer.remaining().skip(0) =~= deserializer.remaining());
        }
        deserializer.deserialize_unit()
    }
}

impl Shape for bool {
    open spec fn fits(m: bool) -> bool {
        true
    }

    open spec fn wire(m: bool, order: Endian) -> Seq<u8> {
        crate::wire::bool_bytes(m)
    }

    open spec fn parse(bytes: Seq<u8>, order: Endian) -> Parsed<bool> {
        crate::wire::parse_bool(bytes)
    }

    proof fn round_trip(m: bool, order: Endian, rest: Seq<u8>) {
        crate::wire::lemma_bool_round_trip(m, rest);
    }

    proof fn cut_short(m: bool, order: Endian, k: nat) {
    }
}

impl Encode for bool {
    fn encode<W: CoreWrite>(&self, serializer: &mut Serializer<'_, W>) -> (r: Result<
        (),
        SerializeError<W>,
    >) {
        serializer.serialize_bool(*self)
    }
}

impl<'a> Decode<'a> for bool {
    fn decode<R: CoreRead<'a>>(deserializer: &mut Deserializer<'a, R>) -> (r: Result<
        bool,
        DeserializeError<'a, R>,
    >) {
        deserializer.deserialize_bool()
    }
}

impl Shape for char {
    open spec fn fits(m: char) -> bool {
        true
    }

    open spec fn wire(m: char, order: Endian) -> Seq<u8> {
        crate::wire::char_bytes(m)
    }

    open spec fn parse(bytes: Seq<u8>, order: Endian) -> Parsed<char> {
        crate::wire::parse_char(bytes)
    }

    proof fn round_trip(m: char, order: Endian, rest: Seq<u8>) {
        crate::wire::lemma_char_round_trip(m, rest);
    }

    proof fn cut_short(m: char, order: Endian, k: nat) {
        crate::wire::lemma_char_width(m);
    }
}

impl Encode for char {
    fn encode<W: CoreWrite>(&self, serializer: &mut Serializer<'_, W>) -> (r: Result<
        (),
        SerializeError<W>,
    >) {
        serializer.serialize_char(*self)
    }
}

impl<'a> Decode<'a> for char {
    fn decode<R: CoreRead<'a>>(deserializer: &mut Deserializer<'a, R>) -> (r: Result<
        char,
        DeserializeError<'a, R>,
    >) {
        deserializer.deserialize_char()
    }
}

impl Shape for u8 {
    open spec fn fits(m: u8) -> bool {
        true
    }

    open spec fn wire(m: u8, order: Endian) -> Seq<u8> {
        seq![m]
    }

    open spec fn parse(bytes: Seq<u8>, order: Endian) -> Parsed<u8> {
        crate::wire::parse_u8(order, bytes)
    }

    proof fn round_trip(m: u8, order: Endian, rest: Seq<u8>) {
        crate::endian::lemma_single_byte(order, m as nat);
        assert((seq![m] + rest).take(1) =~= seq![m]);
    }

    proof fn cut_short(m: u8, order: Endian, k: nat) {
    }
}

impl Encode for u8 {
    fn encode<W: CoreWrite>(&self, serializer: &mut Serializer<'_, W>) -> (r: Result<
        (),
        SerializeError<W>,
    >) {
        serializer.serialize_u8(*self)
    }
}

impl<'a> Decode<'a> for u8 {
    fn decode<R: CoreRead<'a>>(deserializer: &mut Deserializer<'a, R>) -> (r: Result<
        u8,
        DeserializeError<'a, R>,
    >) {
        deserializer.deserialize_u8()
    }
}

impl Shape for i8 {
    open spec fn fits(m: i8) -> bool {
        true
    }

    open spec fn wire(m: i8, order: Endian) -> Seq<u8> {
        crate::wire::int_bytes(order, m as int, 1)
    }

    open spec fn parse(bytes: Seq<u8>, order: Endian) -> Parsed<i8> {
        crate::wire::parse_i8(order, bytes)
    }

    proof fn round_trip(m: i8, order: Endian, rest: Seq<u8>) {
        crate::endian::lemma_radix_values();
        crate::endian::lemma_uint_bytes_len(
            order,
            crate::endian::to_unsigned(m as int, 1),
            1,
        );
        crate::wire::lemma_int_round_trip(order, m as int, 1, rest);
    }

    proof fn cut_short(m: i8, order: Endian, k: nat) {
        crate::endian::lemma_uint_bytes_len(
            order,
            crate::endian::to_unsigned(m as int, 1),
            1,
        );
    }
}

impl Encode for i8 {
    fn encode<W: CoreWrite>(&self, serializer: &mut Serializer<'_, W>) -> (r: Result<
        (),
        SerializeError<W>,
    >) {
        serializer.serialize_i8(*self)
    }
}

impl<'a> Decode<'a> for i8 {
    fn decode<R: CoreRead<'a>>(deserializer: &mut Deserializer<'a, R>) -> (r: Result<
        i8,
        DeserializeError<'a, R>,
    >) {
        deserializer.deserialize_i8()
    }
}

impl Shape for u16 {
    open spec fn fits(m: u16) -> bool {
        true
    }

    open spec fn wire(m: u16, order: Endian) -> Seq<u8> {
        crate::endian::uint_bytes(order, m as nat, 2)
    }

    open spec fn parse(bytes: Seq<u8>, order: Endian) -> Parsed<u16> {
        crate::wire::parse_u16(order, bytes)
    }

    proof fn round_trip(m: u16, order: Endian, rest: Seq<u8>) {
        crate::endian::lemma_radix_values();
        crate::endian::lemma_uint_bytes_len(order, m as nat, 2);
        crate::wire::lemma_uint_round_trip(order, m as nat, 2, rest);
    }

    proof fn cut_short(m: u16, order: Endian, k: nat) {
        crate::endian::lemma_uint_bytes_len(order, m as nat, 2);
    }
}

impl Encode for u16 {
    fn encode<W: CoreWrite>(&self, serializer: &mut Serializer<'_, W>) -> (r: Result<
        (),
        SerializeError<W>,
    >) {
        serializer.serialize_u16(*self)
    }
}

impl<'a> Decode<'a> for u16 {
    fn decode<R: CoreRead<'a>>(deserializer: &mut Deserializer<'a, R>) -> (r: Result<
        u16,
        DeserializeError<'a, R>,
    >) {
        deserializer.deserialize_u16()
    }
}

impl Shape for i16 {
    open spec fn fits(m: i16) -> bool {
        true
    }

    open spec fn wire(m: i16, order: Endian) -> Seq<u8> {
        crate::wire::int_bytes(order, m as int, 2)
    }

    open spec fn parse(bytes: Seq<u8>, order: Endian) -> Parsed<i16> {
        crate::wire::parse_i16(order, bytes)
    }

    proof fn round_trip(m: i16, order: Endian, rest: Seq<u8>) {
        crate::endian::lemma_radix_values();
        crate::endian::lemma_uint_bytes_len(
            order,
            crate::endian::to_unsigned(m as int, 2),
            2,
        );
        crate::wire::lemma_int_round_trip(order, m as int, 2, rest);
    }

    proof fn cut_short(m: i16, order: Endian, k: nat) {
        crate::endian::lemma_uint_bytes_len(
            order,
            crate::endian::to_unsigned(m as int, 2),
            2,
        );
    }
}

impl Encode for i16 {
    fn encode<W: CoreWrite>(&self, serializer: &mut Serializer<'_, W>) -> (r: Result<
        (),
        SerializeError<W>,
    >) {
        serializer.serialize_i16(*self)
    }
}

impl<'a> Decode<'a> for i16 {
    fn decode<R: CoreRead<'a>>(deserializer: &mut Deserializer<'a, R>) -> (r: Result<
        i16,
        DeserializeError<'a, R>,
    >) {
        deserializer.deserialize_i16()
    }
}

impl Shape for u32 {
    open spec fn fits(m: u32) -> bool {
        true
    }

    open spec fn wire(m: u32, order: Endian) -> Seq<u8> {
        crate::endian::uint_bytes(order, m as nat, 4)
    }

    open spec fn parse(bytes: Seq<u8>, order: Endian) -> Parsed<u32> {
        crate::wire::parse_u32(order, bytes)
    }

    proof fn round_trip(m: u32, order: Endian, rest: Seq<u8>) {
        crate::endian::lemma_radix_values();
        crate::endian::lemma_uint_bytes_len(order, m as nat, 4);
        crate::wire::lemma_uint_round_trip(order, m as nat, 4, rest);
    }

    proof fn cut_short(m: u32, order: Endian, k: nat) {
        crate::endian::lemma_uint_bytes_len(order, m as nat, 4);
    }
}

impl Encode for u32 {
    fn encode<W: CoreWrite>(&self, serializer: &mut Serializer<'_, W>) -> (r: Result<
        (),
        SerializeError<W>,
    >) {
        serializer.serialize_u32(*self)
    }
}

impl<'a> Decode<'a> for u32 {
    fn decode<R: CoreRead<'a>>(deserializer: &mut Deserializer<'a, R>) -> (r: Result<
        u32,
        DeserializeError<'a, R>,
    >) {
        deserializer.deserialize_u32()
    }
}

impl Shape for i32 {
    open spec fn fits(m: i32) -> bool {
        true
    }

    open spec fn wire(m: i32, order: Endian) -> Seq<u8> {
        crate::wire::int_bytes(order, m as int, 4)
    }

    open spec fn parse(bytes: Seq<u8>, order: Endian) -> Parsed<i32> {
        crate::wire::parse_i32(order, bytes)
    }

    proof fn round_trip(m: i32, order: Endian, rest: Seq<u8>) {
        crate::endian::lemma_radix_values();
        crate::endian::lemma_uint_bytes_len(
            order,
            crate::endian::to_unsigned(m as int, 4),
            4,
        );
        crate::wire::lemma_int_round_trip(order, m as int, 4, rest);
    }

    proof fn cut_short(m: i32, order: Endian, k: nat) {
        crate::endian::lemma_uint_bytes_len(
            order,
            crate::endian::to_unsigned(m as int, 4),
            4,
        );
    }
}

impl Encode for i32 {
    fn encode<W: CoreWrite>(&self, serializer: &mut Serializer<'_, W>) -> (r: Result<
        (),
        SerializeError<W>,
    >) {
        serializer.serialize_i32(*self)
    }
}

impl<'a> Decode<'a> for i32 {
    fn decode<R: CoreRead<'a>>(deserializer: &mut Deserializer<'a, R>) -> (r: Result<
        i32,
        DeserializeError<'a, R>,
    >) {
        deserializer.deserialize_i32()
    }
}

impl Shape for u64 {
    open spec fn fits(m: u64) -> bool {
        true
    }

    open spec fn wire(m: u64, order: Endian) -> Seq<u8> {
        crate::endian::uint_bytes(order, m as nat, 8)
    }

    open spec fn parse(bytes: Seq<u8>, order: Endian) -> Parsed<u64> {
        crate::wire::parse_u64(order, bytes)
    }

    proof fn round_trip(m: u64, order: Endian, rest: Seq<u8>) {
        crate::endian::lemma_radix_values();
        crate::endian::lemma_uint_bytes_len(order, m as nat, 8);
        crate::wire::lemma_uint_round_trip(order, m as nat, 8, rest);
    }

    proof fn cut_short(m: u64, order: Endian, k: nat) {
        crate::endian::lemma_uint_bytes_len(order, m as nat, 8);
    }
}

impl Encode for u64 {
    fn encode<W: CoreWrite>(&self, serializer: &mut Serializer<'_, W>) -> (r: Result<
        (),
        SerializeError<W>,
    >) {
        serializer.serialize_u64(*self)
    }
}

impl<'a> Decode<'a> for u64 {
    fn decode<R: CoreRead<'a>>(deserializer: &mut Deserializer<'a, R>) -> (r: Result<
        u64,
        DeserializeError<'a, R>,
    >) {
        deserializer.deserialize_u64()
    }
}

impl Shape for i64 {
    open spec fn fits(m: i64) -> bool {
        true
    }

    open spec fn wire(m: i64, order: Endian) -> Seq<u8> {
        crate::wire::int_bytes(order, m as int, 8)
    }

    open spec fn parse(bytes: Seq<u8>, order: Endian) -> Parsed<i64> {
        crate::wire::parse_i64(order, bytes)
    }

    proof fn round_trip(m: i64, order: Endian, rest: Seq<u8>) {
        crate::endian::lemma_radix_values();
        crate::endian::lemma_uint_bytes_len(
            order,
            crate::endian::to_unsigned(m as int, 8),
            8,
        );
        crate::wire::lemma_int_round_trip(order, m as int, 8, rest);
    }

    proof fn cut_short(m: i64, order: Endian, k: nat) {
        crate::endian::lemma_uint_bytes_len(
            order,
            crate::endian::to_unsigned(m as int, 8),
            8,
        );
    }
}

impl Encode for i64 {
    fn encode<W: CoreWrite>(&self, serializer: &mut Serializer<'_, W>) -> (r: Result<
        (),
        SerializeError<W>,
    >) {
        serializer.serialize_i64(*self)
    }
}

impl<'a> Decode<'a> for i64 {
    fn decode<R: CoreRead<'a>>(deserializer: &mut Deserializer<'a, R>) -> (r: Result<
        i64,
        DeserializeError<'a, R>,
    >) {
        deserializer.deserialize_i64()
    }
}

impl Shape for u128 {
    open spec fn fits(m: u128) -> bool {
        true
    }

    open spec fn wire(m: u128, order: Endian) -> Seq<u8> {
        crate::endian::uint_bytes(order, m as nat, 16)
    }

    open spec fn parse(bytes: Seq<u8>, order: Endian) -> Parsed<u128> {
        crate::wire::parse_u128(order, bytes)
    }

    proof fn round_trip(m: u128, order: Endian, rest: Seq<u8>) {
        crate::endian::lemma_radix_values();
        crate::endian::lemma_uint_bytes_len(order, m as nat, 16);
        crate::wire::lemma_uint_round_trip(order, m as nat, 16, rest);
    }

    proof fn cut_short(m: u128, order: Endian, k: nat) {
        crate::endian::lemma_uint_bytes_len(order, m as nat, 16);
    }
}

impl Encode for u128 {
    fn encode<W: CoreWrite>(&self, serializer: &mut Serializer<'_, W>) -> (r: Result<
        (),
        SerializeError<W>,
    >) {
        serializer.serialize_u128(*self)
    }
}

impl<'a> Decode<'a> for u128 {
    fn decode<R: CoreRead<'a>>(deserializer: &mut Deserializer<'a, R>) -> (r: Result<
        u128,
        DeserializeError<'a, R>,
    >) {
        deserializer.deserialize_u128()
    }
}

impl Shape for i128 {
    open spec fn fits(m: i128) -> bool {
        true
    }

    open spec fn wire(m: i128, order: Endian) -> Seq<u8> {
        crate::wire::int_bytes(order, m as int, 16)
    }

    open spec fn parse(bytes: Seq<u8>, order: Endian) -> Parsed<i128> {
        crate::wire::parse_i128(order, bytes)
    }

    proof fn round_trip(m: i128, order: Endian, rest: Seq<u8>) {
        crate::endian::lemma_radix_values();
        crate::endian::lemma_uint_bytes_len(
            order,
            crate::endian::to_unsigned(m as int, 16),
            16,
        );
        crate::wire::lemma_int_round_trip(order, m as int, 16, rest);
    }

    proof fn cut_short(m: i128, order: Endian, k: nat) {
        crate::endian::lemma_uint_bytes_len(
            order,
            crate::endian::to_unsigned(m as int, 16),
            16,
        );
    }
}

impl Encode for i128 {
    fn encode<W: CoreWrite>(&self, serializer: &mut Serializer<'_, W>) -> (r: Result<
        (),
        SerializeError<W>,
    >) {
        serializer.serialize_i128(*self)
    }
}

impl<'a> Decode<'a> for i128 {
    fn decode<R: CoreRead<'a>>(deserializer: &mut Deserializer<'a, R>) -> (r: Result<
        i128,
        DeserializeError<'a, R>,
    >) {
        deserializer.deserialize_i128()
    }
}

} // verus!
