//! Texts, which are read back without a copy.

use crate::deserialize::{Decode, DeserializeError, Deserializer};
use crate::endian::Endian;
use crate::io::{CoreRead, CoreWrite};
use crate::serialize::{Encode, SerializeError, Serializer};
use crate::wire::{Parsed, Shape, MAX_LENGTH};
use vstd::prelude::*;

verus! {

/// A byte string cut off before its end is too short to read.
proof fn lemma_byte_string_cut_short(order: Endian, b: Seq<u8>, k: nat)
    requires
        b.len() <= MAX_LENGTH,
        k < 2 + b.len(),
    ensures
        crate::wire::parse_byte_string(order, crate::wire::byte_string(order, b).take(k as int))
            == Err::<(Seq<u8>, nat), crate::wire::Fault>(crate::wire::Fault::Short),
{
    let prefix = crate::wire::length_prefix(order, b.len());
    let cut = crate::wire::byte_string(order, b).take(k as int);
    crate::endian::lemma_radix_values();
    crate::endian::lemma_uint_bytes_len(order, b.len(), 2);
    crate::endian::lemma_uint_value_of_bytes(order, b.len(), 2);
    if k >= 2 {
        assert(cut.take(2) =~= prefix);
    }
}

impl<'a> Shape for &'a str {
    open spec fn fits(m: Seq<char>) -> bool {
        vstd::utf8::encode_utf8(m).len() <= MAX_LENGTH
    }

    open spec fn wire(m: Seq<char>, order: Endian) -> Seq<u8> {
        crate::wire::str_bytes(order, m)
    }

    open spec fn parse(bytes: Seq<u8>, order: Endian) -> Parsed<Seq<char>> {
        crate::wire::parse_str(order, bytes)
    }

    proof fn round_trip(m: Seq<char>, order: Endian, rest: Seq<u8>) {
        crate::endian::lemma_uint_bytes_len(
            order,
            vstd::utf8::encode_utf8(m).len() % 0x1_0000,
            2,
        );
        crate::wire::lemma_str_round_trip(order, m, rest);
    }

    proof fn cut_short(m: Seq<char>, order: Endian, k: nat) {
        crate::endian::lemma_uint_bytes_len(
            order,
            vstd::utf8::encode_utf8(m).len() % 0x1_0000,
            2,
        );
        if k < 2 + vstd::utf8::encode_utf8(m).len() {
            lemma_byte_string_cut_short(order, vstd::utf8::encode_utf8(m), k);
        }
    }
}

impl<'a> Encode for &'a str {
    fn encode<W: CoreWrite>(&self, serializer: &mut Serializer<'_, W>) -> (r: Result<
        (),
        SerializeError<W>,
    >) {
        serializer.serialize_str(*self)
    }
}

impl<'a> Decode<'a> for &'a str {
    fn decode<R: CoreRead<'a>>(deserializer: &mut Deserializer<'a, R>) -> (r: Result<
        &'a str,
        DeserializeError<'a, R>,
    >) {
        deserializer.deserialize_str()
    }
}

} // verus!
