//! A compact binary encoding for devices without an allocator.
//!
//! Values are written to a [`CoreWrite`] sink and read back from a
//! [`CoreRead`] source. The bytes carry no names and no types: both ends
//! know what is sent, and in which byte order. A text or a byte string that
//! is read back is not copied: it borrows from the buffer behind the
//! source.
//!
//! - [`wire`] states the format, byte for byte, and what holds of it.
//! - [`serialize`] and [`deserialize`] write and read each kind of value.
//! - [`shapes`] gives the ordinary types their place on the wire.
//! - [`io`] holds the sink and the source, [`endian`] and [`utf8`] the bytes
//!   of integers and of characters.

pub mod deserialize;
pub mod endian;
pub mod io;
pub mod serialize;
pub mod shapes;
pub mod utf8;
pub mod wire;

pub use deserialize::{
    deserialize, Decode, DeserializeError, Deserializer, MapAccess, SeqAccess,
};
pub use endian::Endian;
pub use io::{BufferWriter, BufferWriterError, CoreRead, CoreWrite};
pub use serialize::{serialize, Compound, Encode, SerializeError, Serializer};
pub use wire::{Fault, Shape};

use vstd::prelude::*;

verus! {

// The integer types of what the format adds to the values: lengths, counts
// and variant indices. The serializer writes and the deserializer reads each
// at this width.
pub(crate) type EnumVariantType = u8;

pub(crate) type UnitVariantType = u8;

pub(crate) type SequenceLengthType = u16;

pub(crate) type StrLenType = u16;

pub(crate) type SliceLenType = u16;

pub(crate) type MapLenType = u8;

pub(crate) type StructVariantType = u8;

} // verus!
