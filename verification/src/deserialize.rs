//! Reading values back from a byte source.

use crate::endian::Endian;
use crate::io::CoreRead;
use crate::utf8::{from_utf8, utf8_char_width};
use crate::wire::{Fault, Parsed, Shape};
use crate::{MapLenType, SequenceLengthType, SliceLenType, StrLenType};
use vstd::prelude::*;
use vstd::string::StrSliceExecFns;

verus! {

/// Why a value could not be read.
#[derive(Debug)]
pub enum DeserializeError<'a, R: CoreRead<'a>> {
    /// The reader failed; this is what it reported.
    Read(R::Error),
    /// A truth value was neither 0 nor 1; this is the byte found.
    InvalidBoolValue(u8),
    /// No character's encoding starts with the byte found.
    InvalidCharEncoding,
    /// The bytes of a text, or of a character, were not UTF-8.
    Utf8(core::str::Utf8Error),
    /// The mark of an optional value was neither 0 nor 1; this is the byte
    /// found.
    InvalidOptionValue(u8),
}

impl<'a, R: CoreRead<'a>> DeserializeError<'a, R> {
    /// What was wrong with the bytes. A reader's failure counts as their
    /// running out.
    pub open spec fn fault(&self) -> Fault {
        match self {
            DeserializeError::Read(_) => Fault::Short,
            DeserializeError::InvalidBoolValue(b) => Fault::InvalidBool(*b),
            DeserializeError::InvalidCharEncoding => Fault::InvalidChar,
            DeserializeError::Utf8(_) => Fault::InvalidUtf8,
            DeserializeError::InvalidOptionValue(b) => Fault::InvalidOption(*b),
        }
    }
}

impl<'a, R: CoreRead<'a>> From<core::str::Utf8Error> for DeserializeError<'a, R> {
    fn from(err: core::str::Utf8Error) -> (e: Self) {
        Self::Utf8(err)
    }
}

impl<'a, R: CoreRead<'a>> vstd::std_specs::convert::FromSpecImpl<core::str::Utf8Error> for DeserializeError<'a, R> {
    open spec fn obeys_from_spec() -> bool {
        true
    }

    open spec fn from_spec(err: core::str::Utf8Error) -> Self {
        DeserializeError::Utf8(err)
    }
}

/// Reads values from a [`CoreRead`]. Nothing on the wire says what comes
/// next: the caller asks for each value by its kind.
pub struct Deserializer<'a, R: CoreRead<'a>> {
    reader: R,
    order: Endian,
    pd: core::marker::PhantomData<&'a u8>,
}

/// What holds of a call that was to read what `expected` describes. On
/// success the value is the expected one and the reader is past its bytes.
/// An error other than the reader's own is the expected one. With a
/// reliable reader the reader's error comes exactly where the bytes run out.
pub open spec fn reads<'a, R: CoreRead<'a>, T: DeepView>(
    pre: Deserializer<'a, R>,
    post: Deserializer<'a, R>,
    r: Result<T, DeserializeError<'a, R>>,
    expected: Parsed<T::V>,
) -> bool {
    &&& post.order() == pre.order()
    &&& match r {
        Ok(v) => expected matches Ok((m, n)) && m == v.deep_view() && n
            <= pre.remaining().len() && post.remaining() == pre.remaining().skip(n as int),
        Err(e) => if e is Read {
            R::reliable() ==> expected == Err::<(T::V, nat), Fault>(Fault::Short)
        } else {
            expected == Err::<(T::V, nat), Fault>(e.fault())
        },
    }
}

/// With a reliable reader the bytes decide the outcome: a value comes back
/// exactly where they stand for one, the reader's error exactly where they
/// run out, and each other error exactly where it is what is wrong.
pub proof fn lemma_outcome_decided<'a, R: CoreRead<'a>, T: DeepView>(
    pre: Deserializer<'a, R>,
    post: Deserializer<'a, R>,
    r: Result<T, DeserializeError<'a, R>>,
    expected: Parsed<T::V>,
)
    requires
        R::reliable(),
        reads(pre, post, r, expected),
    ensures
        r is Ok <==> expected is Ok,
        r matches Err(e) ==> expected == Err::<(T::V, nat), Fault>(e.fault()),
        (r matches Err(e) && e is Read) <==> expected == Err::<(T::V, nat), Fault>(Fault::Short),
{
}

/// A value that can read itself.
pub trait Decode<'a>: Shape + Sized {
    /// Reads a value of this type through `deserializer`.
    fn decode<R: CoreRead<'a>>(deserializer: &mut Deserializer<'a, R>) -> (r: Result<
        Self,
        DeserializeError<'a, R>,
    >)
        ensures
            reads(
                *old(deserializer),
                *final(deserializer),
                r,
                Self::parse(old(deserializer).remaining(), old(deserializer).order()),
            ),
    ;
}

/// The length before a byte string: the next two bytes, as a number.
fn get_slice_length<'a, R: CoreRead<'a>>(reader: &mut R, order: Endian) -> (r: Result<
    usize,
    R::Error,
>)
    ensures
        match r {
            Ok(len) => old(reader).remaining().len() >= 2 && len == crate::endian::uint_value(
                order,
                old(reader).remaining().take(2),
            ) && final(reader).remaining() == old(reader).remaining().skip(2),
            Err(_) => true,
        },
        R::reliable() ==> (r is Ok <==> old(reader).remaining().len() >= 2),
{
    let buf = reader.read_range(2)?;
    proof {
        assert(buf@.take(2) =~= buf@);
    }
    let len: SliceLenType = crate::endian::read_u16(order, buf);
    Ok(len as usize)
}

/// The length before a text: the next two bytes, as a number.
fn get_str_length<'a, R: CoreRead<'a>>(reader: &mut R, order: Endian) -> (r: Result<
    usize,
    R::Error,
>)
    ensures
        match r {
            Ok(len) => old(reader).remaining().len() >= 2 && len == crate::endian::uint_value(
                order,
                old(reader).remaining().take(2),
            ) && final(reader).remaining() == old(reader).remaining().skip(2),
            Err(_) => true,
        },
        R::reliable() ==> (r is Ok <==> old(reader).remaining().len() >= 2),
{
    let buf = reader.read_range(2)?;
    proof {
        assert(buf@.take(2) =~= buf@);
    }
    let len: StrLenType = crate::endian::read_u16(order, buf);
    Ok(len as usize)
}

/// The length before a sequence: the next two bytes, as a number.
fn get_seq_len<'a, R: CoreRead<'a>>(reader: &mut R, order: Endian) -> (r: Result<
    usize,
    R::Error,
>)
    ensures
        match r {
            Ok(len) => old(reader).remaining().len() >= 2 && len == crate::endian::uint_value(
                order,
                old(reader).remaining().take(2),
            ) && final(reader).remaining() == old(reader).remaining().skip(2),
            Err(_) => true,
        },
        R::reliable() ==> (r is Ok <==> old(reader).remaining().len() >= 2),
{
    let buf = reader.read_range(2)?;
    proof {
        assert(buf@.take(2) =~= buf@);
    }
    let len: SequenceLengthType = crate::endian::read_u16(order, buf);
    Ok(len as usize)
}

impl<'a, R: CoreRead<'a>> Deserializer<'a, R> {
    /// The bytes that have not been read yet.
    pub closed spec fn remaining(&self) -> Seq<u8> {
        self.reader.remaining()
    }

    /// The byte order of the integers.
    pub closed spec fn order(&self) -> Endian {
        self.order
    }

    /// A deserializer that reads from `reader`, integers in the given order.
    pub fn new(reader: R, order: Endian) -> (d: Self)
        ensures
            d.remaining() == reader.remaining(),
            d.order() == order,
    {
        Deserializer { reader, order, pd: core::marker::PhantomData }
    }

    /// A truth value: one byte, 1 or 0.
    pub fn deserialize_bool(&mut self) -> (r: Result<bool, DeserializeError<'a, R>>)
        ensures
            reads(*old(self), *final(self), r, crate::wire::parse_bool(old(self).remaining())),
    {
        let value: u8 = match self.reader.read() {
            Ok(value) => value,
            Err(e) => {
                return Err(DeserializeError::Read(e));
            },
        };
        match value {
            1 => Ok(true),
            0 => Ok(false),
            value => Err(DeserializeError::InvalidBoolValue(value)),
        }
    }

    /// A signed integer of 8 bits.
    pub fn deserialize_i8(&mut self) -> (r: Result<i8, DeserializeError<'a, R>>)
        ensures
            reads(
                *old(self),
                *final(self),
                r,
                crate::wire::parse_i8(old(self).order(), old(self).remaining()),
            ),
    {
        let val = match self.reader.read() {
            Ok(val) => val,
            Err(e) => {
                return Err(DeserializeError::Read(e));
            },
        };
        proof {
            assert(old(self).remaining().take(1) =~= seq![val]);
            crate::endian::lemma_single_byte(self.order, val as nat);
        }
        Ok(crate::endian::read_i8(val))
    }

    /// A signed integer of 16 bits.
    pub fn deserialize_i16(&mut self) -> (r: Result<i16, DeserializeError<'a, R>>)
        ensures
            reads(
                *old(self),
                *final(self),
                r,
                crate::wire::parse_i16(old(self).order(), old(self).remaining()),
            ),
    {
        let buffer = match self.reader.read_range(2) {
            Ok(buffer) => buffer,
            Err(e) => {
                return Err(DeserializeError::Read(e));
            },
        };
        proof {
            assert(buffer@.take(2) =~= buffer@);
        }
        Ok(crate::endian::read_i16(self.order, buffer))
    }

    /// A signed integer of 32 bits.
    pub fn deserialize_i32(&mut self) -> (r: Result<i32, DeserializeError<'a, R>>)
        ensures
            reads(
                *old(self),
                *final(self),
                r,
                crate::wire::parse_i32(old(self).order(), old(self).remaining()),
            ),
    {
        let buffer = match self.reader.read_range(4) {
            Ok(buffer) => buffer,
            Err(e) => {
                return Err(DeserializeError::Read(e));
            },
        };
        proof {
            assert(buffer@.take(4) =~= buffer@);
        }
        Ok(crate::endian::read_i32(self.order, buffer))
    }

    /// A signed integer of 64 bits.
    pub fn deserialize_i64(&mut self) -> (r: Result<i64, DeserializeError<'a, R>>)
        ensures
            reads(
                *old(self),
                *final(self),
                r,
                crate::wire::parse_i64(old(self).order(), old(self).remaining()),
            ),
    {
        let buffer = match self.reader.read_range(8) {
            Ok(buffer) => buffer,
            Err(e) => {
                return Err(DeserializeError::Read(e));
            },
        };
        proof {
            assert(buffer@.take(8) =~= buffer@);
        }
        Ok(crate::endian::read_i64(self.order, buffer))
    }

    /// A signed integer of 128 bits.
    pub fn deserialize_i128(&mut self) -> (r: Result<i128, DeserializeError<'a, R>>)
        ensures
            reads(
                *old(self),
                *final(self),
                r,
                crate::wire::parse_i128(old(self).order(), old(self).remaining()),
            ),
    {
        let buffer = match self.reader.read_range(16) {
            Ok(buffer) => buffer,
            Err(e) => {
                return Err(DeserializeError::Read(e));
            },
        };
        proof {
            assert(buffer@.take(16) =~= buffer@);
        }
        Ok(crate::endian::read_i128(self.order, buffer))
    }

    /// An unsigned integer of 8 bits.
    pub fn deserialize_u8(&mut self) -> (r: Result<u8, DeserializeError<'a, R>>)
        ensures
            reads(
                *old(self),
                *final(self),
                r,
                crate::wire::parse_u8(old(self).order(), old(self).remaining()),
            ),
    {
        let val = match self.reader.read() {
            Ok(val) => val,
            Err(e) => {
                return Err(DeserializeError::Read(e));
            },
        };
        proof {
            assert(old(self).remaining().take(1) =~= seq![val]);
            crate::endian::lemma_single_byte(self.order, val as nat);
        }
        Ok(val)
    }

    /// An unsigned integer of 16 bits.
    pub fn deserialize_u16(&mut self) -> (r: Result<u16, DeserializeError<'a, R>>)
        ensures
            reads(
                *old(self),
                *final(self),
                r,
                crate::wire::parse_u16(old(self).order(), old(self).remaining()),
            ),
    {
        let buffer = match self.reader.read_range(2) {
            Ok(buffer) => buffer,
            Err(e) => {
                return Err(DeserializeError::Read(e));
            },
        };
        proof {
            assert(buffer@.take(2) =~= buffer@);
        }
        Ok(crate::endian::read_u16(self.order, buffer))
    }

    /// An unsigned integer of 32 bits.
    pub fn deserialize_u32(&mut self) -> (r: Result<u32, DeserializeError<'a, R>>)
        ensures
            reads(
                *old(self),
                *final(self),
                r,
                crate::wire::parse_u32(old(self).order(), old(self).remaining()),
            ),
    {
        let buffer = match self.reader.read_range(4) {
            Ok(buffer) => buffer,
            Err(e) => {
                return Err(DeserializeError::Read(e));
            },
        };
        proof {
            assert(buffer@.take(4) =~= buffer@);
        }
        Ok(crate::endian::read_u32(self.order, buffer))
    }

    /// An unsigned integer of 64 bits.
    pub fn deserialize_u64(&mut self) -> (r: Result<u64, DeserializeError<'a, R>>)
        ensures
            reads(
                *old(self),
                *final(self),
                r,
                crate::wire::parse_u64(old(self).order(), old(self).remaining()),
            ),
    {
        let buffer = match self.reader.read_range(8) {
            Ok(buffer) => buffer,
            Err(e) => {
                return Err(DeserializeError::Read(e));
            },
        };
        proof {
            assert(buffer@.take(8) =~= buffer@);
        }
        Ok(crate::endian::read_u64(self.order, buffer))
    }

    /// An unsigned integer of 128 bits.
    pub fn deserialize_u128(&mut self) -> (r: Result<u128, DeserializeError<'a, R>>)
        ensures
            reads(
                *old(self),
                *final(self),
                r,
                crate::wire::parse_u128(old(self).order(), old(self).remaining()),
            ),
    {
        let buffer = match self.reader.read_range(16) {
            Ok(buffer) => buffer,
            Err(e) => {
                return Err(DeserializeError::Read(e));
            },
        };
        proof {
            assert(buffer@.take(16) =~= buffer@);
        }
        Ok(crate::endian::read_u128(self.order, buffer))
    }

    /// A character: as many bytes as its first byte announces.
    pub fn deserialize_char(&mut self) -> (r: Result<char, DeserializeError<'a, R>>)
        ensures
            reads(*old(self), *final(self), r, crate::wire::parse_char(old(self).remaining())),
    {
        let mut buf = [0u8; 4];
        let ghost all = self.reader.remaining();

        // Look at the first byte to see how many bytes must be read
        let first = match self.reader.read() {
            Ok(first) => first,
            Err(e) => {
                return Err(DeserializeError::Read(e));
            },
        };
        buf[0] = first;
        let width = utf8_char_width(buf[0]);
        if width == 1 {
            proof {
                lemma_one_byte_char(all.take(1));
            }
            return Ok(buf[0] as char);
        }
        if width == 0 {
            return Err(DeserializeError::InvalidCharEncoding);
        }
        let mut i: usize = 1;
        while i < width
            invariant
                1 <= i <= width <= 4,
                i <= all.len(),
                all == old(self).reader.remaining(),
                width == crate::utf8::char_width(all[0]),
                self.order == old(self).order,
                self.reader.remaining() == all.skip(i as int),
                forall|j: int| 0 <= j < i ==> buf@[j] == all[j],
            decreases width - i,
        {
            let byte = match self.reader.read() {
                Ok(byte) => byte,
                Err(e) => {
                    return Err(DeserializeError::Read(e));
                },
            };
            buf[i] = byte;
            proof {
                assert(all.skip(i as int).skip(1) =~= all.skip(i + 1));
            }
            i += 1;
        }
        let encoded = vstd::slice::slice_subrange(buf.as_slice(), 0, width);
        proof {
            assert(encoded@ =~= all.take(width as int));
        }
        let text = match from_utf8(encoded) {
            Ok(text) => text,
            Err(e) => {
                return Err(DeserializeError::from(e));
            },
        };
        proof {
            vstd::utf8::encode_utf8_decode_utf8(text@);
        }
        Ok(text.get_char(0))
    }

    /// A text: its length, then as many bytes of UTF-8. The text is not
    /// copied: it lies in the buffer behind the reader.
    pub fn deserialize_str(&mut self) -> (r: Result<&'a str, DeserializeError<'a, R>>)
        ensures
            reads(
                *old(self),
                *final(self),
                r,
                crate::wire::parse_str(old(self).order(), old(self).remaining()),
            ),
    {
        let ghost all = self.reader.remaining();
        let length = match get_str_length(&mut self.reader, self.order) {
            Ok(length) => length,
            Err(e) => {
                return Err(DeserializeError::Read(e));
            },
        };
        let buf = match self.reader.read_range(length) {
            Ok(buf) => buf,
            Err(e) => {
                return Err(DeserializeError::Read(e));
            },
        };
        proof {
            assert(buf@ =~= all.subrange(2, 2 + length as int));
            assert(all.skip(2).skip(length as int) =~= all.skip(2 + length as int));
        }
        let res = match from_utf8(buf) {
            Ok(res) => res,
            Err(e) => {
                return Err(DeserializeError::from(e));
            },
        };
        proof {
            vstd::utf8::encode_utf8_decode_utf8(res@);
        }
        Ok(res)
    }

    /// A text, as [`Deserializer::deserialize_str`] reads it.
    pub fn deserialize_string(&mut self) -> (r: Result<&'a str, DeserializeError<'a, R>>)
        ensures
            reads(
                *old(self),
                *final(self),
                r,
                crate::wire::parse_str(old(self).order(), old(self).remaining()),
            ),
    {
        self.deserialize_str()
    }

    /// A byte string: its length, then as many bytes. The bytes are not
    /// copied: they lie in the buffer behind the reader.
    pub fn deserialize_bytes(&mut self) -> (r: Result<&'a [u8], DeserializeError<'a, R>>)
        ensures
            reads(
                *old(self),
                *final(self),
                r,
                crate::wire::parse_byte_string(old(self).order(), old(self).remaining()),
            ),
    {
        let ghost all = self.reader.remaining();
        let length = match get_slice_length(&mut self.reader, self.order) {
            Ok(length) => length,
            Err(e) => {
                return Err(DeserializeError::Read(e));
            },
        };
        let buf = match self.reader.read_range(length) {
            Ok(buf) => buf,
            Err(e) => {
                return Err(DeserializeError::Read(e));
            },
        };
        proof {
            assert(buf@ =~= all.subrange(2, 2 + length as int));
            assert(all.skip(2).skip(length as int) =~= all.skip(2 + length as int));
            assert(buf.deep_view() =~= buf@);
        }
        Ok(buf)
    }

    /// A byte string, as [`Deserializer::deserialize_bytes`] reads it.
    pub fn deserialize_byte_buf(&mut self) -> (r: Result<&'a [u8], DeserializeError<'a, R>>)
        ensures
            reads(
                *old(self),
                *final(self),
                r,
                crate::wire::parse_byte_string(old(self).order(), old(self).remaining()),
            ),
    {
        self.deserialize_bytes()
    }

    /// An optional value: its mark, then the value where the mark is 1.
    pub fn deserialize_option<T: Decode<'a>>(&mut self) -> (r: Result<
        Option<T>,
        DeserializeError<'a, R>,
    >)
        ensures
            reads(
                *old(self),
                *final(self),
                r,
                crate::wire::parse_option::<T>(old(self).order(), old(self).remaining()),
            ),
    {
        let ghost all = self.reader.remaining();
        let val = match self.reader.read() {
            Ok(val) => val,
            Err(e) => {
                return Err(DeserializeError::Read(e));
            },
        };
        if val == 0 {
            Ok(None)
        } else if val == 1 {
            match T::decode(self) {
                Ok(value) => {
                    proof {
                        let n = T::parse(all.skip(1), self.order)->Ok_0.1;
                        assert(all.skip(1).skip(n as int) =~= all.skip(1 + n as int));
                    }
                    Ok(Some(value))
                },
                Err(e) => Err(e),
            }
        } else {
            Err(DeserializeError::InvalidOptionValue(val))
        }
    }

    /// The unit value: nothing is read.
    pub fn deserialize_unit(&mut self) -> (r: Result<(), DeserializeError<'a, R>>)
        ensures
            r is Ok,
            *final(self) == *old(self),
    {
        Ok(())
    }

    /// A struct without fields: nothing is read.
    pub fn deserialize_unit_struct(&mut self, _name: &'static str) -> (r: Result<
        (),
        DeserializeError<'a, R>,
    >)
        ensures
            r is Ok,
            *final(self) == *old(self),
    {
        Ok(())
    }

    /// A struct around one value: that value.
    pub fn deserialize_newtype_struct<T: Decode<'a>>(&mut self, _name: &'static str) -> (r: Result<
        T,
        DeserializeError<'a, R>,
    >)
        ensures
            reads(
                *old(self),
                *final(self),
                r,
                T::parse(old(self).remaining(), old(self).order()),
            ),
    {
        T::decode(self)
    }

    /// Starts a sequence: its length is read, and what is returned hands
    /// out as many elements.
    pub fn deserialize_seq(&mut self) -> (r: Result<
        SeqAccess<'_, 'a, R>,
        DeserializeError<'a, R>,
    >)
        ensures
            match r {
                Ok(access) => old(self).remaining().len() >= 2 && access.len
                    == crate::endian::uint_value(
                    old(self).order(),
                    old(self).remaining().take(2),
                ) && access.deserializer.remaining() == old(self).remaining().skip(2)
                    && access.deserializer.order() == old(self).order() && *final(access.deserializer) == *final(self),
                Err(e) => e is Read && final(self).order() == old(self).order(),
            },
            R::reliable() ==> (r is Ok <==> old(self).remaining().len() >= 2),
    {
        let len = match get_seq_len(&mut self.reader, self.order) {
            Ok(len) => len,
            Err(e) => {
                return Err(DeserializeError::Read(e));
            },
        };
        self.deserialize_tuple(len)
    }

    /// Starts a tuple of `len` fields. Nothing is read: both ends know the
    /// arity.
    pub fn deserialize_tuple(&mut self, len: usize) -> (r: Result<
        SeqAccess<'_, 'a, R>,
        DeserializeError<'a, R>,
    >)
        ensures
            r matches Ok(access) && access.len == len && *access.deserializer == *old(self)
                && *final(access.deserializer) == *final(self),
    {
        Ok(SeqAccess { deserializer: self, len })
    }

    /// Starts a struct of `len` unnamed fields. Nothing is read.
    pub fn deserialize_tuple_struct(&mut self, _name: &'static str, len: usize) -> (r: Result<
        SeqAccess<'_, 'a, R>,
        DeserializeError<'a, R>,
    >)
        ensures
            r matches Ok(access) && access.len == len && *access.deserializer == *old(self)
                && *final(access.deserializer) == *final(self),
    {
        self.deserialize_tuple(len)
    }

    /// Starts a map: its count is read from one byte, and what is returned
    /// hands out as many pairs.
    pub fn deserialize_map(&mut self) -> (r: Result<MapAccess<'_, 'a, R>, DeserializeError<'a, R>>)
        ensures
            match r {
                Ok(access) => old(self).remaining().len() >= 1 && access.len == old(self).remaining()[0] && access.deserializer.remaining() == old(self).remaining().skip(1) && access.deserializer.order() == old(self).order()
                    && *final(access.deserializer) == *final(self),
                Err(e) => e is Read && final(self).order() == old(self).order(),
            },
            R::reliable() ==> (r is Ok <==> old(self).remaining().len() >= 1),
    {
        proof {
            let all = self.reader.remaining();
            if all.len() >= 1 {
                assert(all.take(1) =~= seq![all[0]]);
                crate::endian::lemma_single_byte(self.order, all[0] as nat);
            }
        }
        let len: MapLenType = match self.deserialize_u8() {
            Ok(len) => len,
            Err(e) => {
                return Err(e);
            },
        };
        Ok(MapAccess { deserializer: self, len: len as usize })
    }

    /// Starts a struct with the given fields. Nothing is read: the fields
    /// come in the order of their declaration, without their names.
    pub fn deserialize_struct(
        &mut self,
        _name: &'static str,
        fields: &'static [&'static str],
    ) -> (r: Result<SeqAccess<'_, 'a, R>, DeserializeError<'a, R>>)
        ensures
            r matches Ok(access) && access.len == fields@.len() && *access.deserializer == *old(self) && *final(access.deserializer) == *final(self),
    {
        self.deserialize_tuple(fields.len())
    }

    /// Starts an enum: the index of the variant is read from one byte. What
    /// the variant holds follows, in the layout of a tuple or of a struct.
    pub fn deserialize_enum(
        &mut self,
        _name: &'static str,
        _variants: &'static [&'static str],
    ) -> (r: Result<u32, DeserializeError<'a, R>>)
        ensures
            match r {
                Ok(index) => old(self).remaining().len() >= 1 && index == old(self).remaining()[0] && final(self).remaining() == old(self).remaining().skip(1),
                Err(e) => e is Read,
            },
            final(self).order() == old(self).order(),
            R::reliable() ==> (r is Ok <==> old(self).remaining().len() >= 1),
    {
        proof {
            let all = self.reader.remaining();
            if all.len() >= 1 {
                assert(all.take(1) =~= seq![all[0]]);
                crate::endian::lemma_single_byte(self.order, all[0] as nat);
            }
        }
        let index = match self.deserialize_u8() {
            Ok(index) => index,
            Err(e) => {
                return Err(e);
            },
        };
        Ok(index as u32)
    }

    /// Whether the format is text: it is not.
    pub fn is_human_readable(&self) -> (b: bool)
        ensures
            !b,
    {
        false
    }
}

/// One character of one byte is what that byte says.
proof fn lemma_one_byte_char(b: Seq<u8>)
    requires
        b.len() == 1,
        b[0] <= 0x7F,
    ensures
        vstd::utf8::valid_utf8(b),
        vstd::utf8::decode_first_scalar(b) as char == b[0] as char,
{
    let x = b[0];
    assert(x & 0x7F == x) by (bit_vector)
        requires
            x <= 0x7F,
    ;
    assert(vstd::utf8::pop_first_scalar(b) =~= Seq::<u8>::empty());
    reveal_with_fuel(vstd::utf8::valid_utf8, 2);
}

/// The elements of a sequence, or the fields of a tuple or struct, that are
/// still to be read.
pub struct SeqAccess<'b, 'a, R: CoreRead<'a>> {
    /// The deserializer that the elements come from.
    pub deserializer: &'b mut Deserializer<'a, R>,
    /// How many elements are still to come.
    pub len: usize,
}

impl<'b, 'a, R: CoreRead<'a>> SeqAccess<'b, 'a, R> {
    /// The next element, or `None` once as many were handed out as the
    /// sequence holds, whatever bytes remain. The count goes down before the
    /// element is read, so also where reading it fails.
    pub fn next_element<T: Decode<'a>>(&mut self) -> (r: Result<
        Option<T>,
        DeserializeError<'a, R>,
    >)
        ensures
            *final(final(self).deserializer) == *final(old(self).deserializer),
            old(self).len == 0 ==> (r matches Ok(None)) && *final(self).deserializer == *old(self).deserializer && final(self).len == 0,
            old(self).len > 0 ==> final(self).len == old(self).len - 1 && !(r matches Ok(None))
                && reads(
                *old(self).deserializer,
                *final(self).deserializer,
                match r {
                    Ok(Some(v)) => Ok::<T, DeserializeError<'a, R>>(v),
                    Ok(None) => arbitrary(),
                    Err(e) => Err::<T, DeserializeError<'a, R>>(e),
                },
                T::parse(old(self).deserializer.remaining(), old(self).deserializer.order()),
            ),
    {
        if self.len > 0 {
            self.len -= 1;
            let value = match T::decode(self.deserializer) {
                Ok(value) => value,
                Err(e) => {
                    return Err(e);
                },
            };
            Ok(Some(value))
        } else {
            Ok(None)
        }
    }

    /// How many elements are still to come.
    pub fn size_hint(&self) -> (n: Option<usize>)
        ensures
            n == Some(self.len),
    {
        Some(self.len)
    }
}

/// The pairs of a map that are still to be read.
pub struct MapAccess<'b, 'a, R: CoreRead<'a>> {
    /// The deserializer that the pairs come from.
    pub deserializer: &'b mut Deserializer<'a, R>,
    /// How many pairs are still to come.
    pub len: usize,
}

impl<'b, 'a, R: CoreRead<'a>> MapAccess<'b, 'a, R> {
    /// The key of the next pair, or `None` once as many pairs were handed
    /// out as the map holds. The count goes down before the key is read, so
    /// also where reading it fails.
    pub fn next_key<K: Decode<'a>>(&mut self) -> (r: Result<Option<K>, DeserializeError<'a, R>>)
        ensures
            *final(final(self).deserializer) == *final(old(self).deserializer),
            old(self).len == 0 ==> (r matches Ok(None)) && *final(self).deserializer == *old(self).deserializer && final(self).len == 0,
            old(self).len > 0 ==> final(self).len == old(self).len - 1 && !(r matches Ok(None))
                && reads(
                *old(self).deserializer,
                *final(self).deserializer,
                match r {
                    Ok(Some(v)) => Ok::<K, DeserializeError<'a, R>>(v),
                    Ok(None) => arbitrary(),
                    Err(e) => Err::<K, DeserializeError<'a, R>>(e),
                },
                K::parse(old(self).deserializer.remaining(), old(self).deserializer.order()),
            ),
    {
        if self.len > 0 {
            self.len -= 1;
            let key = match K::decode(self.deserializer) {
                Ok(key) => key,
                Err(e) => {
                    return Err(e);
                },
            };
            Ok(Some(key))
        } else {
            Ok(None)
        }
    }

    /// The value of the pair whose key was handed out last.
    pub fn next_value<V: Decode<'a>>(&mut self) -> (r: Result<V, DeserializeError<'a, R>>)
        ensures
            *final(final(self).deserializer) == *final(old(self).deserializer),
            final(self).len == old(self).len,
            reads(
                *old(self).deserializer,
                *final(self).deserializer,
                r,
                V::parse(old(self).deserializer.remaining(), old(self).deserializer.order()),
            ),
    {
        V::decode(self.deserializer)
    }

    /// How many pairs are still to come.
    pub fn size_hint(&self) -> (n: Option<usize>)
        ensures
            n == Some(self.len),
    {
        Some(self.len)
    }
}

/// Reads one value of type `T` from `reader`, integers in the given order.
pub fn deserialize<'a, T: Decode<'a>, R: CoreRead<'a>>(reader: R, order: Endian) -> (r: Result<
    T,
    DeserializeError<'a, R>,
>)
    ensures
        match r {
            Ok(v) => T::parse(reader.remaining(), order) matches Ok((m, n)) && m == v.deep_view(),
            Err(e) => if e is Read {
                R::reliable() ==> T::parse(reader.remaining(), order) == Err::<(T::V, nat), Fault>(
                    Fault::Short,
                )
            } else {
                T::parse(reader.remaining(), order) == Err::<(T::V, nat), Fault>(e.fault())
            },
        },
{
    let mut deserializer = Deserializer { reader, order, pd: core::marker::PhantomData };
    T::decode(&mut deserializer)
}

} // verus!
