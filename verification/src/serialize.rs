//! Writing values to a byte sink.

use crate::endian::Endian;
use crate::io::CoreWrite;
use crate::utf8::encode_utf8;
use crate::wire::Shape;
use crate::{
    EnumVariantType, MapLenType, SequenceLengthType, SliceLenType, StrLenType, StructVariantType,
    UnitVariantType,
};
use vstd::prelude::*;

verus! {

/// Why a value could not be written.
#[derive(Debug)]
pub enum SerializeError<W: CoreWrite> {
    /// The writer refused a byte; this is what it reported.
    Write(W::Error),
    /// A sequence or a map was started without its length. The length is
    /// the first thing on the wire, so it has to be known by then.
    SequenceMustHaveLength,
}

/// Writes values to a [`CoreWrite`], each kind in its own layout and every
/// multi-byte integer in one byte order.
pub struct Serializer<'w, W: CoreWrite> {
    /// The writer that the bytes go to.
    pub writer: &'w mut W,
    /// The byte order of the integers.
    pub order: Endian,
}

/// What holds of a call that was to write `bytes`: on success they stand
/// after what was written before. The call fails only where the writer
/// does, and with a reliable writer it fails exactly where the bytes do not
/// fit.
pub open spec fn emits<'w, W: CoreWrite, T>(
    pre: Serializer<'w, W>,
    post: Serializer<'w, W>,
    r: Result<T, SerializeError<W>>,
    bytes: Seq<u8>,
) -> bool {
    &&& post.order() == pre.order()
    &&& r is Ok ==> post.written() == pre.written() + bytes
    &&& r matches Err(e) ==> e is Write
    &&& W::reliable() ==> (r is Ok <==> pre.room() >= bytes.len())
    &&& W::reliable() && r is Ok ==> post.room() == pre.room() - bytes.len()
}

/// A value that can write itself.
pub trait Encode: Shape {
    /// Writes this value through `serializer`.
    fn encode<W: CoreWrite>(&self, serializer: &mut Serializer<'_, W>) -> (r: Result<
        (),
        SerializeError<W>,
    >)
        ensures
            emits(
                *old(serializer),
                *final(serializer),
                r,
                Self::wire(self.deep_view(), old(serializer).order()),
            ),
            *final(final(serializer).writer) == *final(old(serializer).writer),
    ;
}

fn serialize_enum_variant_index<W: CoreWrite>(
    serializer: &mut Serializer<'_, W>,
    variant_index: u32,
) -> (r: Result<(), SerializeError<W>>)
    ensures
        emits(
            *old(serializer),
            *final(serializer),
            r,
            crate::wire::short_prefix(variant_index as nat),
        ),
        *final(final(serializer).writer) == *final(old(serializer).writer),
{
    serializer.serialize_u8((variant_index % 0x100) as EnumVariantType)
}

fn serialize_unit_variant<W: CoreWrite>(serializer: &mut Serializer<'_, W>, variant_index: u32) -> (r:
    Result<(), SerializeError<W>>)
    ensures
        emits(
            *old(serializer),
            *final(serializer),
            r,
            crate::wire::short_prefix(variant_index as nat),
        ),
        *final(final(serializer).writer) == *final(old(serializer).writer),
{
    serializer.serialize_u8((variant_index % 0x100) as UnitVariantType)
}

fn serialize_struct_variant<W: CoreWrite>(serializer: &mut Serializer<'_, W>, variant_index: u32) -> (r:
    Result<(), SerializeError<W>>)
    ensures
        emits(
            *old(serializer),
            *final(serializer),
            r,
            crate::wire::short_prefix(variant_index as nat),
        ),
        *final(final(serializer).writer) == *final(old(serializer).writer),
{
    serializer.serialize_u8((variant_index % 0x100) as StructVariantType)
}

fn serialize_seq_len<W: CoreWrite>(serializer: &mut Serializer<'_, W>, seq_len: Option<usize>) -> (r:
    Result<(), SerializeError<W>>)
    ensures
        match seq_len {
            Some(len) => emits(
                *old(serializer),
                *final(serializer),
                r,
                crate::wire::length_prefix(old(serializer).order(), len as nat),
            ),
            None => r matches Err(SerializeError::SequenceMustHaveLength) && *final(serializer)
                == *old(serializer),
        },
        *final(final(serializer).writer) == *final(old(serializer).writer),
{
    let len: usize = match seq_len {
        Some(len) => len,
        None => {
            return Err(SerializeError::SequenceMustHaveLength);
        },
    };
    serializer.serialize_u16((len % 0x1_0000) as SequenceLengthType)
}

fn serialize_str_len<W: CoreWrite>(serializer: &mut Serializer<'_, W>, str_len: usize) -> (r: Result<
    (),
    SerializeError<W>,
>)
    ensures
        emits(
            *old(serializer),
            *final(serializer),
            r,
            crate::wire::length_prefix(old(serializer).order(), str_len as nat),
        ),
        *final(final(serializer).writer) == *final(old(serializer).writer),
{
    serializer.serialize_u16((str_len % 0x1_0000) as StrLenType)
}

fn serialize_slice_len<W: CoreWrite>(serializer: &mut Serializer<'_, W>, slice_len: usize) -> (r:
    Result<(), SerializeError<W>>)
    ensures
        emits(
            *old(serializer),
            *final(serializer),
            r,
            crate::wire::length_prefix(old(serializer).order(), slice_len as nat),
        ),
        *final(final(serializer).writer) == *final(old(serializer).writer),
{
    serializer.serialize_u16((slice_len % 0x1_0000) as SliceLenType)
}

fn serialize_map_len<W: CoreWrite>(serializer: &mut Serializer<'_, W>, map_len: Option<usize>) -> (r:
    Result<(), SerializeError<W>>)
    ensures
        match map_len {
            Some(len) => emits(
                *old(serializer),
                *final(serializer),
                r,
                crate::wire::short_prefix(len as nat),
            ),
            None => r matches Err(SerializeError::SequenceMustHaveLength) && *final(serializer)
                == *old(serializer),
        },
        *final(final(serializer).writer) == *final(old(serializer).writer),
{
    let len: usize = match map_len {
        Some(len) => len,
        None => {
            return Err(SerializeError::SequenceMustHaveLength);
        },
    };
    serializer.serialize_u8((len % 0x100) as MapLenType)
}

impl<'w, W: CoreWrite> Serializer<'w, W> {
    /// Every byte that went to the writer, this serializer's and earlier
    /// ones.
    pub open spec fn written(&self) -> Seq<u8> {
        (*self.writer).written()
    }

    /// How many more bytes the writer has room for.
    pub open spec fn room(&self) -> nat {
        (*self.writer).room()
    }

    /// The byte order of this serializer's integers.
    pub open spec fn order(&self) -> Endian {
        self.order
    }

    /// A serializer that writes to `writer`, integers in the given order.
    pub fn new(writer: &'w mut W, order: Endian) -> (s: Self)
        ensures
            *s.writer == *old(writer),
            *final(s.writer) == *final(writer),
            s.order() == order,
    {
        Serializer { writer, order }
    }

    fn put(&mut self, bytes: &[u8]) -> (r: Result<(), SerializeError<W>>)
        ensures
            emits(*old(self), *final(self), r, bytes@),
            *final(final(self).writer) == *final(old(self).writer),
    {
        match self.writer.write_all(bytes) {
            Ok(()) => Ok(()),
            Err(e) => Err(SerializeError::Write(e)),
        }
    }

    /// A truth value: one byte, 1 or 0.
    pub fn serialize_bool(&mut self, v: bool) -> (r: Result<(), SerializeError<W>>)
        ensures
            emits(*old(self), *final(self), r, crate::wire::bool_bytes(v)),
            *final(final(self).writer) == *final(old(self).writer),
    {
        self.serialize_u8(if v { 1 } else { 0 })
    }

    /// A signed integer of 8 bits: one byte of two's complement.
    pub fn serialize_i8(&mut self, v: i8) -> (r: Result<(), SerializeError<W>>)
        ensures
            emits(*old(self), *final(self), r, crate::wire::int_bytes(old(self).order(), v as int, 1)),
            *final(final(self).writer) == *final(old(self).writer),
    {
        proof {
            crate::endian::lemma_radix_values();
            crate::endian::lemma_single_byte(
                self.order,
                crate::endian::to_unsigned(v as int, 1),
            );
        }
        self.serialize_u8(crate::endian::write_i8(v))
    }

    /// A signed integer of 16 bits: 2 bytes of two's complement.
    pub fn serialize_i16(&mut self, v: i16) -> (r: Result<(), SerializeError<W>>)
        ensures
            emits(
                *old(self),
                *final(self),
                r,
                crate::wire::int_bytes(old(self).order(), v as int, 2),
            ),
            *final(final(self).writer) == *final(old(self).writer),
    {
        let buf = crate::endian::write_i16(self.order, v);
        self.put(buf.as_slice())
    }

    /// A signed integer of 32 bits: 4 bytes of two's complement.
    pub fn serialize_i32(&mut self, v: i32) -> (r: Result<(), SerializeError<W>>)
        ensures
            emits(
                *old(self),
                *final(self),
                r,
                crate::wire::int_bytes(old(self).order(), v as int, 4),
            ),
            *final(final(self).writer) == *final(old(self).writer),
    {
        let buf = crate::endian::write_i32(self.order, v);
        self.put(buf.as_slice())
    }

    /// A signed integer of 64 bits: 8 bytes of two's complement.
    pub fn serialize_i64(&mut self, v: i64) -> (r: Result<(), SerializeError<W>>)
        ensures
            emits(
                *old(self),
                *final(self),
                r,
                crate::wire::int_bytes(old(self).order(), v as int, 8),
            ),
            *final(final(self).writer) == *final(old(self).writer),
    {
        let buf = crate::endian::write_i64(self.order, v);
        self.put(buf.as_slice())
    }

    /// A signed integer of 128 bits: 16 bytes of two's complement.
    pub fn serialize_i128(&mut self, v: i128) -> (r: Result<(), SerializeError<W>>)
        ensures
            emits(
                *old(self),
                *final(self),
                r,
                crate::wire::int_bytes(old(self).order(), v as int, 16),
            ),
            *final(final(self).writer) == *final(old(self).writer),
    {
        let buf = crate::endian::write_i128(self.order, v);
        self.put(buf.as_slice())
    }

    /// An unsigned integer of 8 bits: one byte.
    pub fn serialize_u8(&mut self, v: u8) -> (r: Result<(), SerializeError<W>>)
        ensures
            emits(*old(self), *final(self), r, seq![v]),
            *final(final(self).writer) == *final(old(self).writer),
    {
        match self.writer.write(v) {
            Ok(()) => {
                proof {
                    assert(old(self).written().push(v) =~= old(self).written() + seq![v]);
                }
                Ok(())
            },
            Err(e) => Err(SerializeError::Write(e)),
        }
    }

    /// An unsigned integer of 16 bits: 2 bytes.
    pub fn serialize_u16(&mut self, v: u16) -> (r: Result<(), SerializeError<W>>)
        ensures
            emits(
                *old(self),
                *final(self),
                r,
                crate::endian::uint_bytes(old(self).order(), v as nat, 2),
            ),
            *final(final(self).writer) == *final(old(self).writer),
    {
        let buf = crate::endian::write_u16(self.order, v);
        self.put(buf.as_slice())
    }

    /// An unsigned integer of 32 bits: 4 bytes.
    pub fn serialize_u32(&mut self, v: u32) -> (r: Result<(), SerializeError<W>>)
        ensures
            emits(
                *old(self),
                *final(self),
                r,
                crate::endian::uint_bytes(old(self).order(), v as nat, 4),
            ),
            *final(final(self).writer) == *final(old(self).writer),
    {
        let buf = crate::endian::write_u32(self.order, v);
        self.put(buf.as_slice())
    }

    /// An unsigned integer of 64 bits: 8 bytes.
    pub fn serialize_u64(&mut self, v: u64) -> (r: Result<(), SerializeError<W>>)
        ensures
            emits(
                *old(self),
                *final(self),
                r,
                crate::endian::uint_bytes(old(self).order(), v as nat, 8),
            ),
            *final(final(self).writer) == *final(old(self).writer),
    {
        let buf = crate::endian::write_u64(self.order, v);
        self.put(buf.as_slice())
    }

    /// An unsigned integer of 128 bits: 16 bytes.
    pub fn serialize_u128(&mut self, v: u128) -> (r: Result<(), SerializeError<W>>)
        ensures
            emits(
                *old(self),
                *final(self),
                r,
                crate::endian::uint_bytes(old(self).order(), v as nat, 16),
            ),
            *final(final(self).writer) == *final(old(self).writer),
    {
        let buf = crate::endian::write_u128(self.order, v);
        self.put(buf.as_slice())
    }

    /// A character: its UTF-8 encoding, with no length before it.
    pub fn serialize_char(&mut self, v: char) -> (r: Result<(), SerializeError<W>>)
        ensures
            emits(*old(self), *final(self), r, crate::wire::char_bytes(v)),
            *final(final(self).writer) == *final(old(self).writer),
    {
        let encoded = encode_utf8(v);
        self.put(encoded.as_slice())
    }

    /// A text: the length of its UTF-8 encoding, then that encoding.
    pub fn serialize_str(&mut self, v: &str) -> (r: Result<(), SerializeError<W>>)
        ensures
            emits(*old(self), *final(self), r, crate::wire::str_bytes(old(self).order(), v@)),
            *final(final(self).writer) == *final(old(self).writer),
    {
        let bytes = v.as_bytes();
        proof {
            crate::endian::lemma_uint_bytes_len(self.order, (bytes.len() % 0x1_0000) as nat, 2);
        }
        match serialize_str_len(self, bytes.len()) {
            Ok(()) => {},
            Err(e) => {
                return Err(e);
            },
        }
        let r = self.put(bytes);
        proof {
            let prefix = crate::wire::length_prefix(self.order, bytes@.len());
            assert(old(self).written() + prefix + bytes@ =~= old(self).written() + (prefix
                + bytes@));
        }
        r
    }

    /// A byte string: its length, then its bytes.
    pub fn serialize_bytes(&mut self, v: &[u8]) -> (r: Result<(), SerializeError<W>>)
        ensures
            emits(*old(self), *final(self), r, crate::wire::byte_string(old(self).order(), v@)),
            *final(final(self).writer) == *final(old(self).writer),
    {
        proof {
            crate::endian::lemma_uint_bytes_len(self.order, (v.len() % 0x1_0000) as nat, 2);
        }
        match serialize_slice_len(self, v.len()) {
            Ok(()) => {},
            Err(e) => {
                return Err(e);
            },
        }
        let r = self.put(v);
        proof {
            let prefix = crate::wire::length_prefix(self.order, v.len() as nat);
            assert(old(self).written() + prefix + v@ =~= old(self).written() + (prefix + v@));
        }
        r
    }

    /// An optional value that is absent: the mark 0.
    pub fn serialize_none(&mut self) -> (r: Result<(), SerializeError<W>>)
        ensures
            emits(*old(self), *final(self), r, crate::wire::option_mark(false)),
            *final(final(self).writer) == *final(old(self).writer),
    {
        self.serialize_u8(0)
    }

    /// An optional value that is present: the mark 1, then the value.
    pub fn serialize_some<T: Encode>(&mut self, value: &T) -> (r: Result<(), SerializeError<W>>)
        ensures
            emits(
                *old(self),
                *final(self),
                r,
                crate::wire::option_mark(true) + T::wire(value.deep_view(), old(self).order()),
            ),
            *final(final(self).writer) == *final(old(self).writer),
    {
        match self.serialize_u8(1) {
            Ok(()) => {},
            Err(e) => {
                return Err(e);
            },
        }
        let r = value.encode(self);
        proof {
            let mark = crate::wire::option_mark(true);
            let bytes = T::wire(value.deep_view(), self.order);
            assert(old(self).written() + mark + bytes =~= old(self).written() + (mark + bytes));
        }
        r
    }

    /// The unit value: nothing. No byte goes to the writer, so this
    /// succeeds whatever the writer is, and leaves the serializer as it was.
    pub fn serialize_unit(&mut self) -> (r: Result<(), SerializeError<W>>)
        ensures
            r is Ok,
            *final(self) == *old(self),
            emits(*old(self), *final(self), r, Seq::<u8>::empty()),
            *final(final(self).writer) == *final(old(self).writer),
    {
        proof {
            assert(self.written() + Seq::<u8>::empty() =~= self.written());
        }
        Ok(())
    }

    /// A struct without fields: nothing. No byte goes to the writer, so
    /// this succeeds whatever the writer is, and leaves the serializer as it
    /// was.
    pub fn serialize_unit_struct(&mut self, _name: &'static str) -> (r: Result<
        (),
        SerializeError<W>,
    >)
        ensures
            r is Ok,
            *final(self) == *old(self),
            emits(*old(self), *final(self), r, Seq::<u8>::empty()),
            *final(final(self).writer) == *final(old(self).writer),
    {
        proof {
            assert(self.written() + Seq::<u8>::empty() =~= self.written());
        }
        Ok(())
    }

    /// A variant without fields: its index, in one byte.
    pub fn serialize_unit_variant(
        &mut self,
        _name: &'static str,
        variant_index: u32,
        _variant: &'static str,
    ) -> (r: Result<(), SerializeError<W>>)
        ensures
            emits(*old(self), *final(self), r, crate::wire::short_prefix(variant_index as nat)),
            *final(final(self).writer) == *final(old(self).writer),
    {
        serialize_unit_variant(self, variant_index)
    }

    /// A struct around one value: that value, with nothing added.
    pub fn serialize_newtype_struct<T: Encode>(&mut self, _name: &'static str, value: &T) -> (r:
        Result<(), SerializeError<W>>)
        ensures
            emits(*old(self), *final(self), r, T::wire(value.deep_view(), old(self).order())),
            *final(final(self).writer) == *final(old(self).writer),
    {
        value.encode(self)
    }

    /// A variant around one value: the variant's index, then the value.
    pub fn serialize_newtype_variant<T: Encode>(
        &mut self,
        _name: &'static str,
        variant_index: u32,
        _variant: &'static str,
        value: &T,
    ) -> (r: Result<(), SerializeError<W>>)
        ensures
            emits(
                *old(self),
                *final(self),
                r,
                crate::wire::short_prefix(variant_index as nat) + T::wire(
                    value.deep_view(),
                    old(self).order(),
                ),
            ),
            *final(final(self).writer) == *final(old(self).writer),
    {
        match serialize_enum_variant_index(self, variant_index) {
            Ok(()) => {},
            Err(e) => {
                return Err(e);
            },
        }
        let r = value.encode(self);
        proof {
            let index = crate::wire::short_prefix(variant_index as nat);
            let bytes = T::wire(value.deep_view(), self.order);
            assert(old(self).written() + index + bytes =~= old(self).written() + (index + bytes));
        }
        r
    }

    /// Starts a sequence of `len` elements: the length goes out, and the
    /// elements go through what is returned. Without a length nothing is
    /// written.
    pub fn serialize_seq(&mut self, len: Option<usize>) -> (r: Result<
        Compound<'_, 'w, W>,
        SerializeError<W>,
    >)
        ensures
            match len {
                Some(n) => emits(
                    *old(self),
                    match r {
                        Ok(c) => *c.ser,
                        Err(_) => *final(self),
                    },
                    r,
                    crate::wire::length_prefix(old(self).order(), n as nat),
                ),
                None => r matches Err(SerializeError::SequenceMustHaveLength) && *final(self)
                    == *old(self),
            },
            r matches Ok(c) ==> *final(c.ser) == *final(self),
            r matches Ok(c) ==> *final(c.ser.writer) == *final(old(self).writer),
            r is Err ==> *final(final(self).writer) == *final(old(self).writer),
    {
        match serialize_seq_len(self, len) {
            Ok(()) => {},
            Err(e) => {
                return Err(e);
            },
        }
        Ok(Compound { ser: self })
    }

    /// Starts a tuple. Its arity is known to both ends, so nothing is
    /// written.
    pub fn serialize_tuple(&mut self, _len: usize) -> (r: Result<
        Compound<'_, 'w, W>,
        SerializeError<W>,
    >)
        ensures
            r matches Ok(c) && *c.ser == *old(self) && *final(c.ser) == *final(self),
    {
        Ok(Compound { ser: self })
    }

    /// Starts a struct with unnamed fields. Nothing is written.
    pub fn serialize_tuple_struct(&mut self, _name: &'static str, _len: usize) -> (r: Result<
        Compound<'_, 'w, W>,
        SerializeError<W>,
    >)
        ensures
            r matches Ok(c) && *c.ser == *old(self) && *final(c.ser) == *final(self),
    {
        Ok(Compound { ser: self })
    }

    /// Starts a variant with unnamed fields: the variant's index goes out.
    pub fn serialize_tuple_variant(
        &mut self,
        _name: &'static str,
        variant_index: u32,
        _variant: &'static str,
        _len: usize,
    ) -> (r: Result<Compound<'_, 'w, W>, SerializeError<W>>)
        ensures
            emits(
                *old(self),
                match r {
                    Ok(c) => *c.ser,
                    Err(_) => *final(self),
                },
                r,
                crate::wire::short_prefix(variant_index as nat),
            ),
            r matches Ok(c) ==> *final(c.ser.writer) == *final(old(self).writer),
            r is Err ==> *final(final(self).writer) == *final(old(self).writer),
            r matches Ok(c) ==> *final(c.ser) == *final(self),
    {
        match serialize_enum_variant_index(self, variant_index) {
            Ok(()) => {},
            Err(e) => {
                return Err(e);
            },
        }
        Ok(Compound { ser: self })
    }

    /// Starts a map of `len` pairs: the count goes out in one byte, and the
    /// keys and values go through what is returned. Without a count nothing
    /// is written.
    pub fn serialize_map(&mut self, len: Option<usize>) -> (r: Result<
        Compound<'_, 'w, W>,
        SerializeError<W>,
    >)
        ensures
            match len {
                Some(n) => emits(
                    *old(self),
                    match r {
                        Ok(c) => *c.ser,
                        Err(_) => *final(self),
                    },
                    r,
                    crate::wire::short_prefix(n as nat),
                ),
                None => r matches Err(SerializeError::SequenceMustHaveLength) && *final(self)
                    == *old(self),
            },
            r matches Ok(c) ==> *final(c.ser) == *final(self),
            r matches Ok(c) ==> *final(c.ser.writer) == *final(old(self).writer),
            r is Err ==> *final(final(self).writer) == *final(old(self).writer),
    {
        match serialize_map_len(self, len) {
            Ok(()) => {},
            Err(e) => {
                return Err(e);
            },
        }
        Ok(Compound { ser: self })
    }

    /// Starts a struct. Neither its name nor its fields' names go out:
    /// nothing is written.
    pub fn serialize_struct(&mut self, _name: &'static str, _len: usize) -> (r: Result<
        Compound<'_, 'w, W>,
        SerializeError<W>,
    >)
        ensures
            r matches Ok(c) && *c.ser == *old(self) && *final(c.ser) == *final(self),
    {
        Ok(Compound { ser: self })
    }

    /// Starts a variant with named fields: the variant's index goes out.
    pub fn serialize_struct_variant(
        &mut self,
        _name: &'static str,
        variant_index: u32,
        _variant: &'static str,
        _len: usize,
    ) -> (r: Result<Compound<'_, 'w, W>, SerializeError<W>>)
        ensures
            emits(
                *old(self),
                match r {
                    Ok(c) => *c.ser,
                    Err(_) => *final(self),
                },
                r,
                crate::wire::short_prefix(variant_index as nat),
            ),
            r matches Ok(c) ==> *final(c.ser.writer) == *final(old(self).writer),
            r is Err ==> *final(final(self).writer) == *final(old(self).writer),
            r matches Ok(c) ==> *final(c.ser) == *final(self),
    {
        match serialize_struct_variant(self, variant_index) {
            Ok(()) => {},
            Err(e) => {
                return Err(e);
            },
        }
        Ok(Compound { ser: self })
    }

    /// The format is binary.
    pub fn is_human_readable(&self) -> (b: bool)
        ensures
            !b,
    {
        false
    }
}

/// A sequence, tuple, map, struct or variant that is being written. What it
/// holds goes out one piece at a time, in the order of the calls.
pub struct Compound<'a, 'w, W: CoreWrite> {
    /// The serializer that the pieces go to.
    pub ser: &'a mut Serializer<'w, W>,
}

impl<'a, 'w, W: CoreWrite> Compound<'a, 'w, W> {
    /// The next element of a sequence or of a tuple.
    pub fn serialize_element<T: Encode>(&mut self, value: &T) -> (r: Result<
        (),
        SerializeError<W>,
    >)
        ensures
            emits(
                *old(self).ser,
                *final(self).ser,
                r,
                T::wire(value.deep_view(), old(self).ser.order()),
            ),
            *final(final(self).ser.writer) == *final(old(self).ser.writer),
            *final(final(self).ser) == *final(old(self).ser),
    {
        value.encode(self.ser)
    }

    /// The next field of a struct or of a variant. The field's name stays
    /// behind.
    pub fn serialize_field<T: Encode>(&mut self, _key: &'static str, value: &T) -> (r: Result<
        (),
        SerializeError<W>,
    >)
        ensures
            emits(
                *old(self).ser,
                *final(self).ser,
                r,
                T::wire(value.deep_view(), old(self).ser.order()),
            ),
            *final(final(self).ser.writer) == *final(old(self).ser.writer),
            *final(final(self).ser) == *final(old(self).ser),
    {
        value.encode(self.ser)
    }

    /// The key of a map's next pair.
    pub fn serialize_key<K: Encode>(&mut self, value: &K) -> (r: Result<(), SerializeError<W>>)
        ensures
            emits(
                *old(self).ser,
                *final(self).ser,
                r,
                K::wire(value.deep_view(), old(self).ser.order()),
            ),
            *final(final(self).ser.writer) == *final(old(self).ser.writer),
            *final(final(self).ser) == *final(old(self).ser),
    {
        value.encode(self.ser)
    }

    /// The value of the pair whose key went out last.
    pub fn serialize_value<V: Encode>(&mut self, value: &V) -> (r: Result<(), SerializeError<W>>)
        ensures
            emits(
                *old(self).ser,
                *final(self).ser,
                r,
                V::wire(value.deep_view(), old(self).ser.order()),
            ),
            *final(final(self).ser.writer) == *final(old(self).ser.writer),
            *final(final(self).ser) == *final(old(self).ser),
    {
        value.encode(self.ser)
    }

    /// The end of the compound. Every piece is out by now: nothing is
    /// written, and the serializer is left as the last piece left it.
    pub fn end(self) -> (r: Result<(), SerializeError<W>>)
        ensures
            r is Ok,
            *final(self.ser) == *old(self.ser),
    {
        Ok(())
    }
}

/// Writes `value` to `writer`, integers in the given order.
pub fn serialize<T: Encode, W: CoreWrite>(value: &T, writer: &mut W, order: Endian) -> (r: Result<
    (),
    SerializeError<W>,
>)
    ensures
        r is Ok ==> (*final(writer)).written() == (*old(writer)).written() + T::wire(
            value.deep_view(),
            order,
        ),
        r matches Err(e) ==> e is Write,
        W::reliable() ==> (r is Ok <==> (*old(writer)).room() >= T::wire(
            value.deep_view(),
            order,
        ).len()),
        W::reliable() && r is Ok ==> (*final(writer)).room() == (*old(writer)).room() - T::wire(
            value.deep_view(),
            order,
        ).len(),
{
    let mut serializer = Serializer { writer, order };
    value.encode(&mut serializer)
}

/// The bytes of a value depend on the value and the byte order alone: where
/// two writers hold the same bytes, and equal values are written to them
/// in the same order, they hold the same bytes afterwards.
pub proof fn lemma_serialize_deterministic<T: Shape, W: CoreWrite>(
    a: T,
    b: T,
    order: Endian,
    first_before: W,
    first_after: W,
    second_before: W,
    second_after: W,
)
    requires
        a.deep_view() == b.deep_view(),
        first_before.written() == second_before.written(),
        first_after.written() == first_before.written() + T::wire(a.deep_view(), order),
        second_after.written() == second_before.written() + T::wire(b.deep_view(), order),
    ensures
        first_after.written() == second_after.written(),
{
}

} // verus!
