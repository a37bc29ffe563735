//! Slices and arrays: elements of one type in a row, a slice behind its
//! length and an array without one.

use crate::deserialize::{Decode, DeserializeError, Deserializer};
use crate::endian::Endian;
use crate::io::{CoreRead, CoreWrite};
use crate::serialize::{emits, Compound, Encode, SerializeError, Serializer};
use crate::wire::{Parsed, Shape, MAX_LENGTH};
use vstd::prelude::*;

verus! {

/// Writes every element of `items`, in order, as the next pieces of
/// `compound`.
fn encode_elements<T: Encode, W: CoreWrite>(compound: &mut Compound<'_, '_, W>, items: &[T]) -> (r:
    Result<(), SerializeError<W>>)
    ensures
        emits(
            *old(compound).ser,
            *final(compound).ser,
            r,
            crate::wire::elements_bytes::<T>(old(compound).ser.order(), items.deep_view()),
        ),
        *final(final(compound).ser) == *final(old(compound).ser),
        *final(final(compound).ser.writer) == *final(old(compound).ser.writer),
{
    let ghost order = compound.ser.order();
    let ghost before = compound.ser.written();
    let ghost values = items.deep_view();
    let mut i: usize = 0;
    proof {
        assert(values.take(0) =~= Seq::<T::V>::empty());
        assert(before + crate::wire::elements_bytes::<T>(order, values.take(0)) =~= before);
    }
    while i < items.len()
        invariant
            i <= items@.len(),
            values == items.deep_view(),
            order == old(compound).ser.order(),
            before == old(compound).ser.written(),
            compound.ser.order() == order,
            compound.ser.written() == before + crate::wire::elements_bytes::<T>(
                order,
                values.take(i as int),
            ),
            W::reliable() ==> compound.ser.room() == old(compound).ser.room()
                - crate::wire::elements_bytes::<T>(order, values.take(i as int)).len(),
            *final(compound.ser) == *final(old(compound).ser),
            *final(compound.ser.writer) == *final(old(compound).ser.writer),
        decreases items@.len() - i,
    {
        let ghost done = crate::wire::elements_bytes::<T>(order, values.take(i as int));
        let ghost next = T::wire(values[i as int], order);
        proof {
            crate::wire::lemma_elements_single::<T>(order, values[i as int]);
            crate::wire::lemma_elements_concat::<T>(
                order,
                values.take(i as int),
                seq![values[i as int]],
            );
            crate::wire::lemma_elements_concat::<T>(
                order,
                values.take(i + 1),
                values.skip(i + 1),
            );
            assert(values.take(i as int) + seq![values[i as int]] =~= values.take(i + 1));
            assert(values.take(i + 1) + values.skip(i + 1) =~= values);
            assert(before + done + next =~= before + (done + next));
        }
        match compound.serialize_element(&items[i]) {
            Ok(()) => {},
            Err(e) => {
                return Err(e);
            },
        }
        i += 1;
    }
    proof {
        assert(values.take(i as int) =~= values);
    }
    Ok(())
}

impl<'a, T: Shape> Shape for &'a [T] {
    open spec fn fits(m: Seq<T::V>) -> bool {
        m.len() <= MAX_LENGTH && crate::wire::all_fit::<T>(m)
    }

    open spec fn wire(m: Seq<T::V>, order: Endian) -> Seq<u8> {
        crate::wire::seq_bytes::<T>(order, m)
    }

    open spec fn parse(bytes: Seq<u8>, order: Endian) -> Parsed<Seq<T::V>> {
        crate::wire::parse_seq::<T>(order, bytes)
    }

    proof fn round_trip(m: Seq<T::V>, order: Endian, rest: Seq<u8>) {
        crate::wire::lemma_seq_round_trip::<T>(order, m, rest);
    }

    proof fn cut_short(m: Seq<T::V>, order: Endian, k: nat) {
        if k < Self::wire(m, order).len() {
            crate::wire::lemma_seq_cut_short::<T>(order, m, k);
        }
    }
}

impl<'a, T: Encode> Encode for &'a [T] {
    fn encode<W: CoreWrite>(&self, serializer: &mut Serializer<'_, W>) -> (r: Result<
        (),
        SerializeError<W>,
    >) {
        let ghost before = serializer.written();
        let ghost prefix = crate::wire::length_prefix(serializer.order(), self@.len());
        let ghost elements = crate::wire::elements_bytes::<T>(
            serializer.order(),
            self.deep_view(),
        );
        proof {
            crate::endian::lemma_uint_bytes_len(
                serializer.order(),
                (self@.len() % 0x1_0000) as nat,
                2,
            );
            assert(before + prefix + elements =~= before + (prefix + elements));
        }
        let mut seq = match serializer.serialize_seq(Some(self.len())) {
            Ok(seq) => seq,
            Err(e) => {
                return Err(e);
            },
        };
        match encode_elements(&mut seq, *self) {
            Ok(()) => {},
            Err(e) => {
                return Err(e);
            },
        }
        seq.end()
    }
}

impl<'a> Decode<'a> for &'a [u8] {
    fn decode<R: CoreRead<'a>>(deserializer: &mut Deserializer<'a, R>) -> (r: Result<
        &'a [u8],
        DeserializeError<'a, R>,
    >) {
        proof {
            let all = deserializer.remaining();
            let order = deserializer.order();
            if all.len() >= 2 {
                let count = crate::endian::uint_value(order, all.take(2));
                crate::wire::lemma_parse_elements_of_bytes(order, all.skip(2), count);
                if all.len() >= 2 + count {
                    assert(all.skip(2).take(count as int) =~= all.subrange(2, 2 + count as int));
                }
            }
        }
        deserializer.deserialize_bytes()
    }
}

impl<T: Shape, const N: usize> Shape for [T; N] {
    open spec fn fits(m: Seq<T::V>) -> bool {
        m.len() == N && crate::wire::all_fit::<T>(m)
    }

    open spec fn wire(m: Seq<T::V>, order: Endian) -> Seq<u8> {
        crate::wire::elements_bytes::<T>(order, m)
    }

    open spec fn parse(bytes: Seq<u8>, order: Endian) -> Parsed<Seq<T::V>> {
        crate::wire::parse_elements::<T>(order, bytes, N as nat)
    }

    proof fn round_trip(m: Seq<T::V>, order: Endian, rest: Seq<u8>) {
        crate::wire::lemma_elements_round_trip::<T>(order, m, rest);
    }

    proof fn cut_short(m: Seq<T::V>, order: Endian, k: nat) {
        if k < Self::wire(m, order).len() {
            crate::wire::lemma_elements_cut_short::<T>(order, m, k);
        }
    }
}

impl<T: Encode, const N: usize> Encode for [T; N] {
    fn encode<W: CoreWrite>(&self, serializer: &mut Serializer<'_, W>) -> (r: Result<
        (),
        SerializeError<W>,
    >) {
        let mut tuple = match serializer.serialize_tuple(N) {
            Ok(tuple) => tuple,
            Err(e) => {
                return Err(e);
            },
        };
        let items = self.as_slice();
        proof {
            assert(items.deep_view() =~= self.deep_view());
        }
        match encode_elements(&mut tuple, items) {
            Ok(()) => {},
            Err(e) => {
                return Err(e);
            },
        }
        tuple.end()
    }
}

impl<'a, const N: usize> Decode<'a> for [u8; N] {
    #[verifier::loop_isolation(false)]
    fn decode<R: CoreRead<'a>>(deserializer: &mut Deserializer<'a, R>) -> (r: Result<
        [u8; N],
        DeserializeError<'a, R>,
    >) {
        let ghost all = deserializer.remaining();
        proof {
            crate::wire::lemma_parse_elements_of_bytes(deserializer.order(), all, N as nat);
        }
        let mut access = match deserializer.deserialize_tuple(N) {
            Ok(access) => access,
            Err(e) => {
                return Err(e);
            },
        };
        let ghost end = *final(access.deserializer);
        let mut out = [0u8; N];
        let mut i: usize = 0;
        while i < N
            invariant
                i <= N,
                i <= all.len(),
                access.len == N - i,
                access.deserializer.order() == old(deserializer).order(),
                access.deserializer.remaining() == all.skip(i as int),
                forall|j: int| 0 <= j < i ==> out@[j] == all[j],
                *final(access.deserializer) == end,
            decreases N - i,
        {
            proof {
                let here = all.skip(i as int);
                if here.len() >= 1 {
                    assert(here.take(1) =~= seq![here[0]]);
                    crate::endian::lemma_single_byte(access.deserializer.order(), here[0] as nat);
                    assert(here.skip(1) =~= all.skip(i + 1));
                }
            }
            let byte = match access.next_element::<u8>() {
                Ok(Some(byte)) => byte,
                Ok(None) => vstd::pervasive::unreached(),
                Err(e) => {
                    return Err(e);
                },
            };
            out[i] = byte;
            i += 1;
        }
        proof {
            assert(out@ =~= all.take(N as int));
            assert(out.deep_view() =~= out@);
        }
        Ok(out)
    }
}

} // verus!
