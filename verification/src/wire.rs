//! The wire format, byte for byte.
//!
//! Each kind of value has two spec functions here: the bytes that stand for
//! it, and what the front of a byte sequence stands for when a value of that
//! kind is expected. Nothing on the wire says which kind comes next.

use crate::endian::Endian;
use vstd::prelude::*;

verus! {

/// Why bytes do not stand for a value of the expected kind.
pub enum Fault {
    /// The bytes end before the value does.
    Short,
    /// A truth value is neither 0 nor 1; this is the byte found.
    InvalidBool(u8),
    /// No character's encoding starts with the byte found.
    InvalidChar,
    /// The bytes of a text or of a character are not UTF-8.
    InvalidUtf8,
    /// The mark of an optional value is neither 0 nor 1; this is the byte found.
    InvalidOption(u8),
}

/// What the front of a byte sequence stands for: a value and the number of
/// bytes that it takes, or the reason why there is none.
pub type Parsed<T> = Result<(T, nat), Fault>;

/// The largest length that a length prefix can hold.
pub const MAX_LENGTH: usize = 0xFFFF;

/// A truth value: one byte, 1 for true and 0 for false.
pub open spec fn bool_bytes(v: bool) -> Seq<u8> {
    seq![if v { 1u8 } else { 0u8 }]
}

/// A truth value at the front of `bytes`.
pub open spec fn parse_bool(bytes: Seq<u8>) -> Parsed<bool> {
    if bytes.len() < 1 {
        Err(Fault::Short)
    } else if bytes[0] == 1 {
        Ok((true, 1))
    } else if bytes[0] == 0 {
        Ok((false, 1))
    } else {
        Err(Fault::InvalidBool(bytes[0]))
    }
}

/// An unsigned number of `n` bytes at the front of `bytes`.
pub open spec fn parse_uint(order: Endian, bytes: Seq<u8>, n: nat) -> Parsed<nat> {
    if bytes.len() < n {
        Err(Fault::Short)
    } else {
        Ok((crate::endian::uint_value(order, bytes.take(n as int)), n))
    }
}

/// A signed number: the `n` bytes of its two's complement.
pub open spec fn int_bytes(order: Endian, v: int, n: nat) -> Seq<u8> {
    crate::endian::uint_bytes(order, crate::endian::to_unsigned(v, n), n)
}

/// A signed number of `n` bytes at the front of `bytes`.
pub open spec fn parse_int(order: Endian, bytes: Seq<u8>, n: nat) -> Parsed<int> {
    if bytes.len() < n {
        Err(Fault::Short)
    } else {
        Ok(
            (
                crate::endian::to_signed(
                    crate::endian::uint_value(order, bytes.take(n as int)),
                    n,
                ),
                n,
            ),
        )
    }
}

/// An unsigned integer of 8 bits at the front of `bytes`.
pub open spec fn parse_u8(order: Endian, bytes: Seq<u8>) -> Parsed<u8> {
    match parse_uint(order, bytes, 1) {
        Ok((v, n)) => Ok((v as u8, n)),
        Err(fault) => Err(fault),
    }
}

/// A signed integer of 8 bits at the front of `bytes`.
pub open spec fn parse_i8(order: Endian, bytes: Seq<u8>) -> Parsed<i8> {
    match parse_int(order, bytes, 1) {
        Ok((v, n)) => Ok((v as i8, n)),
        Err(fault) => Err(fault),
    }
}

/// An unsigned integer of 16 bits at the front of `bytes`.
pub open spec fn parse_u16(order: Endian, bytes: Seq<u8>) -> Parsed<u16> {
    match parse_uint(order, bytes, 2) {
        Ok((v, n)) => Ok((v as u16, n)),
        Err(fault) => Err(fault),
    }
}

/// A signed integer of 16 bits at the front of `bytes`.
pub open spec fn parse_i16(order: Endian, bytes: Seq<u8>) -> Parsed<i16> {
    match parse_int(order, bytes, 2) {
        Ok((v, n)) => Ok((v as i16, n)),
        Err(fault) => Err(fault),
    }
}

/// An unsigned integer of 32 bits at the front of `bytes`.
pub open spec fn parse_u32(order: Endian, bytes: Seq<u8>) -> Parsed<u32> {
    match parse_uint(order, bytes, 4) {
        Ok((v, n)) => Ok((v as u32, n)),
        Err(fault) => Err(fault),
    }
}

/// A signed integer of 32 bits at the front of `bytes`.
pub open spec fn parse_i32(order: Endian, bytes: Seq<u8>) -> Parsed<i32> {
    match parse_int(order, bytes, 4) {
        Ok((v, n)) => Ok((v as i32, n)),
        Err(fault) => Err(fault),
    }
}

/// An unsigned integer of 64 bits at the front of `bytes`.
pub open spec fn parse_u64(order: Endian, bytes: Seq<u8>) -> Parsed<u64> {
    match parse_uint(order, bytes, 8) {
        Ok((v, n)) => Ok((v as u64, n)),
        Err(fault) => Err(fault),
    }
}

/// A signed integer of 64 bits at the front of `bytes`.
pub open spec fn parse_i64(order: Endian, bytes: Seq<u8>) -> Parsed<i64> {
    match parse_int(order, bytes, 8) {
        Ok((v, n)) => Ok((v as i64, n)),
        Err(fault) => Err(fault),
    }
}

/// An unsigned integer of 128 bits at the front of `bytes`.
pub open spec fn parse_u128(order: Endian, bytes: Seq<u8>) -> Parsed<u128> {
    match parse_uint(order, bytes, 16) {
        Ok((v, n)) => Ok((v as u128, n)),
        Err(fault) => Err(fault),
    }
}

/// A signed integer of 128 bits at the front of `bytes`.
pub open spec fn parse_i128(order: Endian, bytes: Seq<u8>) -> Parsed<i128> {
    match parse_int(order, bytes, 16) {
        Ok((v, n)) => Ok((v as i128, n)),
        Err(fault) => Err(fault),
    }
}

/// A character: its UTF-8 encoding, one to four bytes, with no length before
/// it.
pub open spec fn char_bytes(c: char) -> Seq<u8> {
    vstd::utf8::encode_scalar(c as u32)
}

/// A character at the front of `bytes`. The first byte tells how many bytes
/// there are.
pub open spec fn parse_char(bytes: Seq<u8>) -> Parsed<char> {
    if bytes.len() < 1 {
        Err(Fault::Short)
    } else {
        let width = crate::utf8::char_width(bytes[0]);
        if width == 0 {
            Err(Fault::InvalidChar)
        } else if bytes.len() < width {
            Err(Fault::Short)
        } else if vstd::utf8::valid_utf8(bytes.take(width as int)) {
            Ok((vstd::utf8::decode_first_scalar(bytes.take(width as int)) as char, width))
        } else {
            Err(Fault::InvalidUtf8)
        }
    }
}

/// The length before a text, a byte string or a sequence: two bytes, which
/// hold the length modulo 65536.
pub open spec fn length_prefix(order: Endian, len: nat) -> Seq<u8> {
    crate::endian::uint_bytes(order, len % 0x1_0000, 2)
}

/// The count before a map, and the index of an enum's variant: one byte,
/// which holds the number modulo 256.
pub open spec fn short_prefix(n: nat) -> Seq<u8> {
    seq![(n % 0x100) as u8]
}

/// A byte string: its length, then its bytes.
pub open spec fn byte_string(order: Endian, b: Seq<u8>) -> Seq<u8> {
    length_prefix(order, b.len()) + b
}

/// A byte string at the front of `bytes`.
pub open spec fn parse_byte_string(order: Endian, bytes: Seq<u8>) -> Parsed<Seq<u8>> {
    if bytes.len() < 2 {
        Err(Fault::Short)
    } else {
        let len = crate::endian::uint_value(order, bytes.take(2));
        if bytes.len() < 2 + len {
            Err(Fault::Short)
        } else {
            Ok((bytes.subrange(2, 2 + len as int), 2 + len))
        }
    }
}

/// A text: the length of its UTF-8 encoding in bytes, then that encoding.
pub open spec fn str_bytes(order: Endian, s: Seq<char>) -> Seq<u8> {
    byte_string(order, vstd::utf8::encode_utf8(s))
}

/// A text at the front of `bytes`.
pub open spec fn parse_str(order: Endian, bytes: Seq<u8>) -> Parsed<Seq<char>> {
    match parse_byte_string(order, bytes) {
        Ok((payload, n)) => if vstd::utf8::valid_utf8(payload) {
            Ok((vstd::utf8::decode_utf8(payload), n))
        } else {
            Err(Fault::InvalidUtf8)
        },
        Err(fault) => Err(fault),
    }
}

/// The mark before an optional value: 1 where a value follows, else 0.
pub open spec fn option_mark(present: bool) -> Seq<u8> {
    seq![if present { 1u8 } else { 0u8 }]
}

/// The mark of an optional value at the front of `bytes`: whether a value
/// follows.
pub open spec fn parse_option_mark(bytes: Seq<u8>) -> Parsed<bool> {
    if bytes.len() < 1 {
        Err(Fault::Short)
    } else if bytes[0] == 0 {
        Ok((false, 1))
    } else if bytes[0] == 1 {
        Ok((true, 1))
    } else {
        Err(Fault::InvalidOption(bytes[0]))
    }
}

/// An optional value at the front of `bytes`: its mark, then the value where
/// the mark says that one follows.
pub open spec fn parse_option<T: Shape>(order: Endian, bytes: Seq<u8>) -> Parsed<Option<T::V>> {
    match parse_option_mark(bytes) {
        Ok((true, _)) => match T::parse(bytes.skip(1), order) {
            Ok((m, n)) => Ok((Some(m), 1 + n)),
            Err(fault) => Err(fault),
        },
        Ok((false, _)) => Ok((None, 1)),
        Err(fault) => Err(fault),
    }
}

/// Two values, one after the other with nothing between them.
pub open spec fn parse_pair<A: Shape, B: Shape>(order: Endian, bytes: Seq<u8>) -> Parsed<
    (A::V, B::V),
> {
    match A::parse(bytes, order) {
        Ok((a, n)) => match B::parse(bytes.skip(n as int), order) {
            Ok((b, k)) => Ok(((a, b), n + k)),
            Err(fault) => Err(fault),
        },
        Err(fault) => Err(fault),
    }
}

/// Values of one type, one after the other with nothing between them.
pub open spec fn elements_bytes<T: Shape>(order: Endian, s: Seq<T::V>) -> Seq<u8>
    decreases s.len(),
{
    if s.len() == 0 {
        Seq::empty()
    } else {
        T::wire(s[0], order) + elements_bytes::<T>(order, s.drop_first())
    }
}

/// `count` values of one type at the front of `bytes`.
pub open spec fn parse_elements<T: Shape>(order: Endian, bytes: Seq<u8>, count: nat) -> Parsed<
    Seq<T::V>,
>
    decreases count,
{
    if count == 0 {
        Ok((Seq::empty(), 0))
    } else {
        match T::parse(bytes, order) {
            Ok((m, n)) => match parse_elements::<T>(
                order,
                bytes.skip(n as int),
                (count - 1) as nat,
            ) {
                Ok((rest, k)) => Ok((seq![m] + rest, n + k)),
                Err(fault) => Err(fault),
            },
            Err(fault) => Err(fault),
        }
    }
}

/// Whether every value of `s` fits.
pub open spec fn all_fit<T: Shape>(s: Seq<T::V>) -> bool {
    forall|i: int| 0 <= i < s.len() ==> T::fits(#[trigger] s[i])
}

/// A sequence: the number of its elements, then the elements.
pub open spec fn seq_bytes<T: Shape>(order: Endian, s: Seq<T::V>) -> Seq<u8> {
    length_prefix(order, s.len()) + elements_bytes::<T>(order, s)
}

/// A sequence at the front of `bytes`.
pub open spec fn parse_seq<T: Shape>(order: Endian, bytes: Seq<u8>) -> Parsed<Seq<T::V>> {
    if bytes.len() < 2 {
        Err(Fault::Short)
    } else {
        match parse_elements::<T>(
            order,
            bytes.skip(2),
            crate::endian::uint_value(order, bytes.take(2)),
        ) {
            Ok((s, n)) => Ok((s, 2 + n)),
            Err(fault) => Err(fault),
        }
    }
}

/// A type whose values have a place on the wire.
///
/// The format is stated over the type's deep view, so that a text or a byte
/// string that borrows from a buffer counts as equal to one that does not.
pub trait Shape: DeepView {
    /// Whether every length inside `m` fits the prefix that is to hold it.
    spec fn fits(m: Self::V) -> bool;

    /// The bytes that stand for `m`.
    spec fn wire(m: Self::V, order: Endian) -> Seq<u8>;

    /// What the front of `bytes` stands for.
    spec fn parse(bytes: Seq<u8>, order: Endian) -> Parsed<Self::V>;

    /// A value that fits reads back as it was written, whatever follows it,
    /// and takes as many bytes as were written.
    proof fn round_trip(m: Self::V, order: Endian, rest: Seq<u8>)
        requires
            Self::fits(m),
        ensures
            Self::parse(Self::wire(m, order) + rest, order) == Ok::<(Self::V, nat), Fault>(
                (m, Self::wire(m, order).len()),
            ),
    ;

    /// The bytes of a value that fits, cut off anywhere before their end,
    /// are too short to read anything from.
    proof fn cut_short(m: Self::V, order: Endian, k: nat)
        requires
            Self::fits(m),
        ensures
            k < Self::wire(m, order).len() ==> Self::parse(
                Self::wire(m, order).take(k as int),
                order,
            ) == Err::<(Self::V, nat), Fault>(Fault::Short),
    ;
}

/// A truth value reads back as it was written, whatever follows it.
pub proof fn lemma_bool_round_trip(v: bool, rest: Seq<u8>)
    ensures
        parse_bool(bool_bytes(v) + rest) == Ok::<(bool, nat), Fault>((v, 1)),
{
}

/// An unsigned number that fits in `n` bytes reads back as it was written,
/// whatever follows it.
pub proof fn lemma_uint_round_trip(order: Endian, v: nat, n: nat, rest: Seq<u8>)
    requires
        v < crate::endian::radix(n),
    ensures
        parse_uint(order, crate::endian::uint_bytes(order, v, n) + rest, n) == Ok::<
            (nat, nat),
            Fault,
        >((v, n)),
{
    let b = crate::endian::uint_bytes(order, v, n);
    crate::endian::lemma_uint_bytes_len(order, v, n);
    crate::endian::lemma_uint_value_of_bytes(order, v, n);
    assert((b + rest).take(n as int) =~= b);
}

/// A signed number that fits in `n` bytes reads back as it was written,
/// whatever follows it.
pub proof fn lemma_int_round_trip(order: Endian, v: int, n: nat, rest: Seq<u8>)
    requires
        n > 0,
        -(crate::endian::radix(n) / 2) <= v < crate::endian::radix(n) / 2,
    ensures
        parse_int(order, int_bytes(order, v, n) + rest, n) == Ok::<(int, nat), Fault>((v, n)),
{
    crate::endian::lemma_signed_unsigned(v, n);
    lemma_uint_round_trip(order, crate::endian::to_unsigned(v, n), n, rest);
}

/// A byte string of at most 65535 bytes reads back as it was written,
/// whatever follows it.
pub proof fn lemma_byte_string_round_trip(order: Endian, b: Seq<u8>, rest: Seq<u8>)
    requires
        b.len() <= MAX_LENGTH,
    ensures
        parse_byte_string(order, byte_string(order, b) + rest) == Ok::<(Seq<u8>, nat), Fault>(
            (b, 2 + b.len()),
        ),
{
    let all = byte_string(order, b) + rest;
    let prefix = length_prefix(order, b.len());
    crate::endian::lemma_radix_values();
    crate::endian::lemma_uint_bytes_len(order, b.len(), 2);
    crate::endian::lemma_uint_value_of_bytes(order, b.len(), 2);
    assert(all.take(2) =~= prefix);
    assert(all.subrange(2, 2 + b.len() as int) =~= b);
}

/// A text whose encoding has at most 65535 bytes reads back as it was
/// written, whatever follows it.
pub proof fn lemma_str_round_trip(order: Endian, s: Seq<char>, rest: Seq<u8>)
    requires
        vstd::utf8::encode_utf8(s).len() <= MAX_LENGTH,
    ensures
        parse_str(order, str_bytes(order, s) + rest) == Ok::<(Seq<char>, nat), Fault>(
            (s, 2 + vstd::utf8::encode_utf8(s).len()),
        ),
{
    lemma_byte_string_round_trip(order, vstd::utf8::encode_utf8(s), rest);
    vstd::utf8::encode_utf8_valid_utf8(s);
    vstd::utf8::encode_utf8_decode_utf8(s);
}

/// The first byte of a character's encoding tells how many bytes there are.
pub proof fn lemma_char_width(c: char)
    ensures
        1 <= char_bytes(c).len() <= 4,
        crate::utf8::char_width(char_bytes(c)[0]) == char_bytes(c).len(),
{
    let s = c as u32;
    vstd::utf8::char_is_scalar(c);
    if vstd::utf8::has_width_1_encoding(s) {
        assert((s & 0x7F) as u8 <= 0x7F) by (bit_vector)
            requires
                s <= 0x7F,
        ;
    } else if vstd::utf8::has_width_2_encoding(s) {
        assert(0xC2 <= (0xC0 | ((s >> 6) & 0x1F) as u8) <= 0xDF) by (bit_vector)
            requires
                0x80 <= s <= 0x7FF,
        ;
    } else if vstd::utf8::has_width_3_encoding(s) {
        assert(0xE0 <= (0xE0 | ((s >> 12) & 0x0F) as u8) <= 0xEF) by (bit_vector)
            requires
                0x800 <= s <= 0xFFFF,
        ;
    } else {
        assert(0xF0 <= (0xF0 | ((s >> 18) & 0x7) as u8) <= 0xF4) by (bit_vector)
            requires
                0x10000 <= s <= 0x10FFFF,
        ;
    }
}

/// A character reads back as it was written, whatever follows it.
pub proof fn lemma_char_round_trip(c: char, rest: Seq<u8>)
    ensures
        parse_char(char_bytes(c) + rest) == Ok::<(char, nat), Fault>((c, char_bytes(c).len())),
{
    let b = char_bytes(c);
    let one = seq![c];
    lemma_char_width(c);
    assert(one.drop_first() =~= Seq::<char>::empty());
    assert(vstd::utf8::encode_utf8(one) =~= b) by {
        reveal_with_fuel(vstd::utf8::encode_utf8, 2);
    }
    assert((b + rest).take(b.len() as int) =~= b);
    vstd::utf8::encode_utf8_valid_utf8(one);
    vstd::utf8::encode_utf8_first_scalar(one);
    vstd::utf8::char_u32_cast(c, vstd::utf8::decode_first_scalar(b));
}

/// Two values that fit read back as they were written, whatever follows
/// them.
pub proof fn lemma_pair_round_trip<A: Shape, B: Shape>(
    a: A::V,
    b: B::V,
    order: Endian,
    rest: Seq<u8>,
)
    requires
        A::fits(a),
        B::fits(b),
    ensures
        parse_pair::<A, B>(order, A::wire(a, order) + B::wire(b, order) + rest) == Ok::<
            ((A::V, B::V), nat),
            Fault,
        >(((a, b), A::wire(a, order).len() + B::wire(b, order).len())),
{
    let first = A::wire(a, order);
    let second = B::wire(b, order);
    A::round_trip(a, order, second + rest);
    B::round_trip(b, order, rest);
    assert(first + second + rest =~= first + (second + rest));
    assert((first + (second + rest)).skip(first.len() as int) =~= second + rest);
}

/// The bytes of two values that fit, cut off anywhere before their end, are
/// too short to read the two from.
pub proof fn lemma_pair_cut_short<A: Shape, B: Shape>(a: A::V, b: B::V, order: Endian, k: nat)
    requires
        A::fits(a),
        B::fits(b),
        k < A::wire(a, order).len() + B::wire(b, order).len(),
    ensures
        parse_pair::<A, B>(order, (A::wire(a, order) + B::wire(b, order)).take(k as int)) == Err::<
            ((A::V, B::V), nat),
            Fault,
        >(Fault::Short),
{
    let first = A::wire(a, order);
    let second = B::wire(b, order);
    let cut = (first + second).take(k as int);
    if k < first.len() {
        A::cut_short(a, order, k);
        assert(cut =~= first.take(k as int));
    } else {
        let left = (k - first.len()) as nat;
        A::round_trip(a, order, second.take(left as int));
        B::cut_short(b, order, left);
        assert(cut =~= first + second.take(left as int));
        assert(cut.skip(first.len() as int) =~= second.take(left as int));
    }
}

/// Reading what was written gives the value back: for every value that
/// fits, the bytes that stand for it stand for it alone, all of them.
pub proof fn lemma_decode_of_encode<T: Shape>(m: T::V, order: Endian)
    requires
        T::fits(m),
    ensures
        T::parse(T::wire(m, order), order) == Ok::<(T::V, nat), Fault>(
            (m, T::wire(m, order).len()),
        ),
{
    T::round_trip(m, order, Seq::empty());
    assert(T::wire(m, order) + Seq::<u8>::empty() =~= T::wire(m, order));
}

/// One byte short of what a value takes is too short: reading fails for
/// want of bytes, and for no other reason.
pub proof fn lemma_one_byte_short<T: Shape>(m: T::V, order: Endian)
    requires
        T::fits(m),
        T::wire(m, order).len() > 0,
    ensures
        T::parse(T::wire(m, order).drop_last(), order) == Err::<(T::V, nat), Fault>(Fault::Short),
{
    let bytes = T::wire(m, order);
    T::cut_short(m, order, (bytes.len() - 1) as nat);
    assert(bytes.drop_last() =~= bytes.take(bytes.len() - 1));
}

/// The length before a byte string is the number of bytes read as the
/// string: the string takes its length and the two bytes of the prefix, and
/// no more.
pub proof fn lemma_byte_string_prefix_exact(order: Endian, bytes: Seq<u8>)
    ensures
        parse_byte_string(order, bytes) matches Ok((b, n)) ==> {
            &&& b.len() == crate::endian::uint_value(order, bytes.take(2))
            &&& n == 2 + b.len()
            &&& n <= bytes.len()
            &&& b == bytes.subrange(2, n as int)
        },
{
}

/// The length before a text is the number of bytes read as the text.
pub proof fn lemma_str_prefix_exact(order: Endian, bytes: Seq<u8>)
    ensures
        parse_str(order, bytes) matches Ok((s, n)) ==> {
            &&& vstd::utf8::encode_utf8(s).len() == crate::endian::uint_value(
                order,
                bytes.take(2),
            )
            &&& n == 2 + vstd::utf8::encode_utf8(s).len()
            &&& n <= bytes.len()
            &&& vstd::utf8::encode_utf8(s) == bytes.subrange(2, n as int)
        },
{
    if parse_str(order, bytes) is Ok {
        let payload = parse_byte_string(order, bytes)->Ok_0.0;
        vstd::utf8::decode_utf8_encode_utf8(payload);
    }
}

/// The length that a prefix holds is the length that was written, as long
/// as that is at most 65535.
pub proof fn lemma_length_prefix_exact(order: Endian, len: nat, rest: Seq<u8>)
    requires
        len <= MAX_LENGTH,
    ensures
        length_prefix(order, len).len() == 2,
        crate::endian::uint_value(order, (length_prefix(order, len) + rest).take(2)) == len,
{
    crate::endian::lemma_radix_values();
    crate::endian::lemma_uint_bytes_len(order, len, 2);
    crate::endian::lemma_uint_value_of_bytes(order, len, 2);
    assert((length_prefix(order, len) + rest).take(2) =~= length_prefix(order, len));
}

/// The bytes of elements, then of more elements, are the bytes of all of
/// them in that order.
pub proof fn lemma_elements_concat<T: Shape>(order: Endian, a: Seq<T::V>, b: Seq<T::V>)
    ensures
        elements_bytes::<T>(order, a + b) == elements_bytes::<T>(order, a) + elements_bytes::<T>(
            order,
            b,
        ),
    decreases a.len(),
{
    if a.len() == 0 {
        assert(a + b =~= b);
        assert(elements_bytes::<T>(order, a) + elements_bytes::<T>(order, b)
            =~= elements_bytes::<T>(order, b));
    } else {
        let tail = a.drop_first();
        lemma_elements_concat::<T>(order, tail, b);
        assert((a + b).drop_first() =~= tail + b);
        assert(T::wire(a[0], order) + (elements_bytes::<T>(order, tail) + elements_bytes::<T>(
            order,
            b,
        )) =~= T::wire(a[0], order) + elements_bytes::<T>(order, tail) + elements_bytes::<T>(
            order,
            b,
        ));
    }
}

/// The bytes of one element alone are the bytes of its value.
pub proof fn lemma_elements_single<T: Shape>(order: Endian, m: T::V)
    ensures
        elements_bytes::<T>(order, seq![m]) == T::wire(m, order),
{
    let one = seq![m];
    assert(one.drop_first() =~= Seq::<T::V>::empty());
    assert(elements_bytes::<T>(order, one.drop_first()) =~= Seq::<u8>::empty());
    assert(T::wire(m, order) + Seq::<u8>::empty() =~= T::wire(m, order));
}

/// Elements that fit read back as they were written, whatever follows them.
pub proof fn lemma_elements_round_trip<T: Shape>(order: Endian, s: Seq<T::V>, rest: Seq<u8>)
    requires
        all_fit::<T>(s),
    ensures
        parse_elements::<T>(order, elements_bytes::<T>(order, s) + rest, s.len()) == Ok::<
            (Seq<T::V>, nat),
            Fault,
        >((s, elements_bytes::<T>(order, s).len())),
    decreases s.len(),
{
    if s.len() > 0 {
        let first = T::wire(s[0], order);
        let tail = elements_bytes::<T>(order, s.drop_first());
        T::round_trip(s[0], order, tail + rest);
        lemma_elements_round_trip::<T>(order, s.drop_first(), rest);
        assert(first + tail + rest =~= first + (tail + rest));
        assert((first + (tail + rest)).skip(first.len() as int) =~= tail + rest);
        assert(seq![s[0]] + s.drop_first() =~= s);
    } else {
        assert(s =~= Seq::<T::V>::empty());
    }
}

/// The bytes of elements that fit, cut off anywhere before their end, are
/// too short to read the elements from.
pub proof fn lemma_elements_cut_short<T: Shape>(order: Endian, s: Seq<T::V>, k: nat)
    requires
        all_fit::<T>(s),
        k < elements_bytes::<T>(order, s).len(),
    ensures
        parse_elements::<T>(order, elements_bytes::<T>(order, s).take(k as int), s.len()) == Err::<
            (Seq<T::V>, nat),
            Fault,
        >(Fault::Short),
    decreases s.len(),
{
    if s.len() > 0 {
        let first = T::wire(s[0], order);
        let tail = elements_bytes::<T>(order, s.drop_first());
        let cut = (first + tail).take(k as int);
        if k < first.len() {
            T::cut_short(s[0], order, k);
            assert(cut =~= first.take(k as int));
        } else {
            let left = (k - first.len()) as nat;
            T::round_trip(s[0], order, tail.take(left as int));
            lemma_elements_cut_short::<T>(order, s.drop_first(), left);
            assert(cut =~= first + tail.take(left as int));
            assert(cut.skip(first.len() as int) =~= tail.take(left as int));
        }
    }
}

/// A sequence of at most 65535 elements that fit reads back as it was
/// written, whatever follows it.
pub proof fn lemma_seq_round_trip<T: Shape>(order: Endian, s: Seq<T::V>, rest: Seq<u8>)
    requires
        all_fit::<T>(s),
        s.len() <= MAX_LENGTH,
    ensures
        parse_seq::<T>(order, seq_bytes::<T>(order, s) + rest) == Ok::<(Seq<T::V>, nat), Fault>(
            (s, seq_bytes::<T>(order, s).len()),
        ),
{
    let prefix = length_prefix(order, s.len());
    let elements = elements_bytes::<T>(order, s);
    let all = seq_bytes::<T>(order, s) + rest;
    lemma_length_prefix_exact(order, s.len(), elements + rest);
    lemma_elements_round_trip::<T>(order, s, rest);
    assert(all =~= prefix + (elements + rest));
    assert(all.skip(2) =~= elements + rest);
}

/// The bytes of a sequence of at most 65535 elements that fit, cut off
/// anywhere before their end, are too short to read the sequence from.
pub proof fn lemma_seq_cut_short<T: Shape>(order: Endian, s: Seq<T::V>, k: nat)
    requires
        all_fit::<T>(s),
        s.len() <= MAX_LENGTH,
        k < seq_bytes::<T>(order, s).len(),
    ensures
        parse_seq::<T>(order, seq_bytes::<T>(order, s).take(k as int)) == Err::<
            (Seq<T::V>, nat),
            Fault,
        >(Fault::Short),
{
    let prefix = length_prefix(order, s.len());
    let elements = elements_bytes::<T>(order, s);
    let cut = seq_bytes::<T>(order, s).take(k as int);
    lemma_length_prefix_exact(order, s.len(), elements);
    if k >= 2 {
        let left = (k - 2) as nat;
        lemma_length_prefix_exact(order, s.len(), elements.take(left as int));
        lemma_elements_cut_short::<T>(order, s, left);
        assert(cut =~= prefix + elements.take(left as int));
        assert(cut.skip(2) =~= elements.take(left as int));
    }
}

/// Reading `count` elements gives `count` elements.
pub proof fn lemma_parse_elements_count<T: Shape>(order: Endian, bytes: Seq<u8>, count: nat)
    ensures
        parse_elements::<T>(order, bytes, count) matches Ok((s, n)) ==> s.len() == count,
    decreases count,
{
    if count > 0 {
        if let Ok((m, n)) = T::parse(bytes, order) {
            lemma_parse_elements_count::<T>(order, bytes.skip(n as int), (count - 1) as nat);
        }
    }
}

/// The count before a sequence is the number of elements read as the
/// sequence.
pub proof fn lemma_seq_prefix_exact<T: Shape>(order: Endian, bytes: Seq<u8>)
    ensures
        parse_seq::<T>(order, bytes) matches Ok((s, n)) ==> s.len() == crate::endian::uint_value(
            order,
            bytes.take(2),
        ),
{
    if bytes.len() >= 2 {
        lemma_parse_elements_count::<T>(
            order,
            bytes.skip(2),
            crate::endian::uint_value(order, bytes.take(2)),
        );
    }
}

/// Bytes as elements are the bytes themselves.
pub proof fn lemma_elements_of_bytes(order: Endian, b: Seq<u8>)
    ensures
        elements_bytes::<u8>(order, b) == b,
    decreases b.len(),
{
    if b.len() > 0 {
        lemma_elements_of_bytes(order, b.drop_first());
        assert(seq![b[0]] + b.drop_first() =~= b);
    } else {
        assert(elements_bytes::<u8>(order, b) =~= b);
    }
}

/// A slice of bytes goes out as a byte string does: its length, then its
/// bytes.
pub proof fn lemma_bytes_as_sequence(order: Endian, b: Seq<u8>)
    ensures
        seq_bytes::<u8>(order, b) == byte_string(order, b),
{
    lemma_elements_of_bytes(order, b);
}

/// Reading `count` bytes as elements takes the next `count` bytes as they
/// are.
pub proof fn lemma_parse_elements_of_bytes(order: Endian, bytes: Seq<u8>, count: nat)
    ensures
        parse_elements::<u8>(order, bytes, count) == if bytes.len() < count {
            Err::<(Seq<u8>, nat), Fault>(Fault::Short)
        } else {
            Ok::<(Seq<u8>, nat), Fault>((bytes.take(count as int), count))
        },
    decreases count,
{
    if count > 0 {
        lemma_parse_elements_of_bytes(order, bytes.skip(1), (count - 1) as nat);
        if bytes.len() >= 1 {
            assert(bytes.take(1) =~= seq![bytes[0]]);
            crate::endian::lemma_single_byte(order, bytes[0] as nat);
            if bytes.len() >= count {
                assert(seq![bytes[0]] + bytes.skip(1).take(count - 1) =~= bytes.take(
                    count as int,
                ));
            }
        }
    } else {
        assert(bytes.take(0) =~= Seq::<u8>::empty());
    }
}

} // verus!
