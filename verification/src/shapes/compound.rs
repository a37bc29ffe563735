//! Optional values and tuples.

use crate::deserialize::{Decode, DeserializeError, Deserializer};
use crate::endian::Endian;
use crate::io::{CoreRead, CoreWrite};
use crate::serialize::{Encode, SerializeError, Serializer};
use crate::wire::{Fault, Parsed, Shape};
use vstd::prelude::*;

verus! {

impl<T: Shape> Shape for Option<T> {
    open spec fn fits(m: Option<T::V>) -> bool {
        match m {
            Some(x) => T::fits(x),
            None => true,
        }
    }

    open spec fn wire(m: Option<T::V>, order: Endian) -> Seq<u8> {
        match m {
            Some(x) => crate::wire::option_mark(true) + T::wire(x, order),
            None => crate::wire::option_mark(false),
        }
    }

    open spec fn parse(bytes: Seq<u8>, order: Endian) -> Parsed<Option<T::V>> {
        crate::wire::parse_option::<T>(order, bytes)
    }

    proof fn round_trip(m: Option<T::V>, order: Endian, rest: Seq<u8>) {
        match m {
            Some(x) => {
                T::round_trip(x, order, rest);
                assert((Self::wire(m, order) + rest).skip(1) =~= T::wire(x, order) + rest);
            },
            None => {},
        }
    }

    proof fn cut_short(m: Option<T::V>, order: Endian, k: nat) {
        match m {
            Some(x) => {
                if 1 <= k < Self::wire(m, order).len() {
                    T::cut_short(x, order, (k - 1) as nat);
                    assert(Self::wire(m, order).take(k as int).skip(1) =~= T::wire(x, order).take(
                        k - 1,
                    ));
                }
            },
            None => {},
        }
    }
}

impl<T: Encode> Encode for Option<T> {
    fn encode<W: CoreWrite>(&self, serializer: &mut Serializer<'_, W>) -> (r: Result<
        (),
        SerializeError<W>,
    >) {
        match self {
            Some(value) => serializer.serialize_some(value),
            None => serializer.serialize_none(),
        }
    }
}

impl<'a, T: Decode<'a>> Decode<'a> for Option<T> {
    fn decode<R: CoreRead<'a>>(deserializer: &mut Deserializer<'a, R>) -> (r: Result<
        Option<T>,
        DeserializeError<'a, R>,
    >) {
        deserializer.deserialize_option::<T>()
    }
}

impl<A: Shape, B: Shape> Shape for (A, B) {
    open spec fn fits(m: (A::V, B::V)) -> bool {
        A::fits(m.0) && B::fits(m.1)
    }

    open spec fn wire(m: (A::V, B::V), order: Endian) -> Seq<u8> {
        A::wire(m.0, order) + B::wire(m.1, order)
    }

    open spec fn parse(bytes: Seq<u8>, order: Endian) -> Parsed<(A::V, B::V)> {
        crate::wire::parse_pair::<A, B>(order, bytes)
    }

    proof fn round_trip(m: (A::V, B::V), order: Endian, rest: Seq<u8>) {
        crate::wire::lemma_pair_round_trip::<A, B>(m.0, m.1, order, rest);
    }

    proof fn cut_short(m: (A::V, B::V), order: Endian, k: nat) {
        if k < Self::wire(m, order).len() {
            crate::wire::lemma_pair_cut_short::<A, B>(m.0, m.1, order, k);
        }
    }
}

impl<A: Encode, B: Encode> Encode for (A, B) {
    fn encode<W: CoreWrite>(&self, serializer: &mut Serializer<'_, W>) -> (r: Result<
        (),
        SerializeError<W>,
    >) {
        let mut tuple = match serializer.serialize_tuple(2) {
            Ok(tuple) => tuple,
            Err(e) => {
                return Err(e);
            },
        };
        match tuple.serialize_element(&self.0) {
            Ok(()) => {},
            Err(e) => {
                return Err(e);
            },
        }
        match tuple.serialize_element(&self.1) {
            Ok(()) => {},
            Err(e) => {
                return Err(e);
            },
        }
        let r = tuple.end();
        proof {
            let before = old(serializer).written();
            let w0 = A::wire(self.0.deep_view(), serializer.order());
            let w1 = B::wire(self.1.deep_view(), serializer.order());
            assert(before + w0 + w1 =~= before + (w0 + w1));
        }
        r
    }
}

impl<'a, A: Decode<'a>, B: Decode<'a>> Decode<'a> for (A, B) {
    fn decode<R: CoreRead<'a>>(deserializer: &mut Deserializer<'a, R>) -> (r: Result<
        (A, B),
        DeserializeError<'a, R>,
    >) {
        let mut access = match deserializer.deserialize_tuple(2) {
            Ok(access) => access,
            Err(e) => {
                return Err(e);
            },
        };
        let v0: A = match access.next_element::<A>() {
            Ok(Some(v)) => v,
            Ok(None) => vstd::pervasive::unreached(),
            Err(e) => {
                return Err(e);
            },
        };
        let v1: B = match access.next_element::<B>() {
            Ok(Some(v)) => v,
            Ok(None) => vstd::pervasive::unreached(),
            Err(e) => {
                return Err(e);
            },
        };
        proof {
            let all = old(deserializer).remaining();
            let order = deserializer.order();
            let at0 = all;
            let n0 = A::parse(at0, order)->Ok_0.1;
            let at1 = at0.skip(n0 as int);
            let n1 = B::parse(at1, order)->Ok_0.1;
            let at2 = at1.skip(n1 as int);
            assert(at1.skip(n1 as int) =~= all.skip((n0 + n1) as int));
        }
        Ok((v0, v1))
    }
}

impl<A: Shape, B: Shape, C: Shape> Shape for (A, B, C) {
    open spec fn fits(m: (A::V, B::V, C::V)) -> bool {
        A::fits(m.0) && B::fits(m.1) && C::fits(m.2)
    }

    open spec fn wire(m: (A::V, B::V, C::V), order: Endian) -> Seq<u8> {
        A::wire(m.0, order) + B::wire(m.1, order) + C::wire(m.2, order)
    }

    open spec fn parse(bytes: Seq<u8>, order: Endian) -> Parsed<(A::V, B::V, C::V)> {
        match crate::wire::parse_pair::<A, (B, C)>(order, bytes) {
            Ok(((m0, (m1, m2)), n)) => Ok(((m0, m1, m2), n)),
            Err(fault) => Err(fault),
        }
    }

    proof fn round_trip(m: (A::V, B::V, C::V), order: Endian, rest: Seq<u8>) {
        let tail = (m.1, m.2);
        assert(<(B, C) as Shape>::fits(tail));
        assert(A::wire(m.0, order) + <(B, C) as Shape>::wire(tail, order) =~= Self::wire(
            m,
            order,
        ));
        crate::wire::lemma_pair_round_trip::<A, (B, C)>(m.0, tail, order, rest);
    }

    proof fn cut_short(m: (A::V, B::V, C::V), order: Endian, k: nat) {
        let tail = (m.1, m.2);
        assert(<(B, C) as Shape>::fits(tail));
        assert(A::wire(m.0, order) + <(B, C) as Shape>::wire(tail, order) =~= Self::wire(
            m,
            order,
        ));
        if k < Self::wire(m, order).len() {
            crate::wire::lemma_pair_cut_short::<A, (B, C)>(m.0, tail, order, k);
        }
    }
}

impl<A: Encode, B: Encode, C: Encode> Encode for (A, B, C) {
    fn encode<W: CoreWrite>(&self, serializer: &mut Serializer<'_, W>) -> (r: Result<
        (),
        SerializeError<W>,
    >) {
        let mut tuple = match serializer.serialize_tuple(3) {
            Ok(tuple) => tuple,
            Err(e) => {
                return Err(e);
            },
        };
        match tuple.serialize_element(&self.0) {
            Ok(()) => {},
            Err(e) => {
                return Err(e);
            },
        }
        match tuple.serialize_element(&self.1) {
            Ok(()) => {},
            Err(e) => {
                return Err(e);
            },
        }
        match tuple.serialize_element(&self.2) {
            Ok(()) => {},
            Err(e) => {
                return Err(e);
            },
        }
        let r = tuple.end();
        proof {
            let before = old(serializer).written();
            let w0 = A::wire(self.0.deep_view(), serializer.order());
            let w1 = B::wire(self.1.deep_view(), serializer.order());
            let w2 = C::wire(self.2.deep_view(), serializer.order());
            assert(before + w0 + w1 + w2 =~= before + (w0 + w1 + w2));
        }
        r
    }
}

impl<'a, A: Decode<'a>, B: Decode<'a>, C: Decode<'a>> Decode<'a> for (A, B, C) {
    fn decode<R: CoreRead<'a>>(deserializer: &mut Deserializer<'a, R>) -> (r: Result<
        (A, B, C),
        DeserializeError<'a, R>,
    >) {
        let mut access = match deserializer.deserialize_tuple(3) {
            Ok(access) => access,
            Err(e) => {
                return Err(e);
            },
        };
        let v0: A = match access.next_element::<A>() {
            Ok(Some(v)) => v,
            Ok(None) => vstd::pervasive::unreached(),
            Err(e) => {
                return Err(e);
            },
        };
        let v1: B = match access.next_element::<B>() {
            Ok(Some(v)) => v,
            Ok(None) => vstd::pervasive::unreached(),
            Err(e) => {
                return Err(e);
            },
        };
        let v2: C = match access.next_element::<C>() {
            Ok(Some(v)) => v,
            Ok(None) => vstd::pervasive::unreached(),
            Err(e) => {
                return Err(e);
            },
        };
        proof {
            let all = old(deserializer).remaining();
            let order = deserializer.order();
            let at0 = all;
            let n0 = A::parse(at0, order)->Ok_0.1;
            let at1 = at0.skip(n0 as int);
            let n1 = B::parse(at1, order)->Ok_0.1;
            let at2 = at1.skip(n1 as int);
            let n2 = C::parse(at2, order)->Ok_0.1;
            let at3 = at2.skip(n2 as int);
            assert(at1.skip(n1 as int) =~= all.skip((n0 + n1) as int));
            assert(at2.skip(n2 as int) =~= all.skip((n0 + n1 + n2) as int));
            assert(<(B, C) as Shape>::parse(at1, order) is Ok);
        }
        Ok((v0, v1, v2))
    }
}

impl<A: Shape, B: Shape, C: Shape, D: Shape> Shape for (A, B, C, D) {
    open spec fn fits(m: (A::V, B::V, C::V, D::V)) -> bool {
        A::fits(m.0) && B::fits(m.1) && C::fits(m.2) && D::fits(m.3)
    }

    open spec fn wire(m: (A::V, B::V, C::V, D::V), order: Endian) -> Seq<u8> {
        A::wire(m.0, order) + B::wire(m.1, order) + C::wire(m.2, order) + D::wire(m.3, order)
    }

    open spec fn parse(bytes: Seq<u8>, order: Endian) -> Parsed<(A::V, B::V, C::V, D::V)> {
        match crate::wire::parse_pair::<A, (B, (C, D))>(order, bytes) {
            Ok(((m0, (m1, (m2, m3))), n)) => Ok(((m0, m1, m2, m3), n)),
            Err(fault) => Err(fault),
        }
    }

    proof fn round_trip(m: (A::V, B::V, C::V, D::V), order: Endian, rest: Seq<u8>) {
        let tail = (m.1, (m.2, m.3));
        assert(<(B, (C, D)) as Shape>::fits(tail));
        assert(A::wire(m.0, order) + <(B, (C, D)) as Shape>::wire(tail, order) =~= Self::wire(
            m,
            order,
        ));
        crate::wire::lemma_pair_round_trip::<A, (B, (C, D))>(m.0, tail, order, rest);
    }

    proof fn cut_short(m: (A::V, B::V, C::V, D::V), order: Endian, k: nat) {
        let tail = (m.1, (m.2, m.3));
        assert(<(B, (C, D)) as Shape>::fits(tail));
        assert(A::wire(m.0, order) + <(B, (C, D)) as Shape>::wire(tail, order) =~= Self::wire(
            m,
            order,
        ));
        if k < Self::wire(m, order).len() {
            crate::wire::lemma_pair_cut_short::<A, (B, (C, D))>(m.0, tail, order, k);
        }
    }
}

impl<A: Encode, B: Encode, C: Encode, D: Encode> Encode for (A, B, C, D) {
    fn encode<W: CoreWrite>(&self, serializer: &mut Serializer<'_, W>) -> (r: Result<
        (),
        SerializeError<W>,
    >) {
        let mut tuple = match serializer.serialize_tuple(4) {
            Ok(tuple) => tuple,
            Err(e) => {
                return Err(e);
            },
        };
        match tuple.serialize_element(&self.0) {
            Ok(()) => {},
            Err(e) => {
                return Err(e);
            },
        }
        match tuple.serialize_element(&self.1) {
            Ok(()) => {},
            Err(e) => {
                return Err(e);
            },
        }
        match tuple.serialize_element(&self.2) {
            Ok(()) => {},
            Err(e) => {
                return Err(e);
            },
        }
        match tuple.serialize_element(&self.3) {
            Ok(()) => {},
            Err(e) => {
                return Err(e);
            },
        }
        let r = tuple.end();
        proof {
            let before = old(serializer).written();
            let w0 = A::wire(self.0.deep_view(), serializer.order());
            let w1 = B::wire(self.1.deep_view(), serializer.order());
            let w2 = C::wire(self.2.deep_view(), serializer.order());
            let w3 = D::wire(self.3.deep_view(), serializer.order());
            assert(before + w0 + w1 + w2 + w3 =~= before + (w0 + w1 + w2 + w3));
        }
        r
    }
}

impl<'a, A: Decode<'a>, B: Decode<'a>, C: Decode<'a>, D: Decode<'a>> Decode<'a> for (A, B, C, D) {
    fn decode<R: CoreRead<'a>>(deserializer: &mut Deserializer<'a, R>) -> (r: Result<
        (A, B, C, D),
        DeserializeError<'a, R>,
    >) {
        let mut access = match deserializer.deserialize_tuple(4) {
            Ok(access) => access,
            Err(e) => {
                return Err(e);
            },
        };
        let v0: A = match access.next_element::<A>() {
            Ok(Some(v)) => v,
            Ok(None) => vstd::pervasive::unreached(),
            Err(e) => {
                return Err(e);
            },
        };
        let v1: B = match access.next_element::<B>() {
            Ok(Some(v)) => v,
            Ok(None) => vstd::pervasive::unreached(),
            Err(e) => {
                return Err(e);
            },
        };
        let v2: C = match access.next_element::<C>() {
            Ok(Some(v)) => v,
            Ok(None) => vstd::pervasive::unreached(),
            Err(e) => {
                return Err(e);
            },
        };
        let v3: D = match access.next_element::<D>() {
            Ok(Some(v)) => v,
            Ok(None) => vstd::pervasive::unreached(),
            Err(e) => {
                return Err(e);
            },
        };
        proof {
            let all = old(deserializer).remaining();
            let order = deserializer.order();
            let at0 = all;
            let n0 = A::parse(at0, order)->Ok_0.1;
            let at1 = at0.skip(n0 as int);
            let n1 = B::parse(at1, order)->Ok_0.1;
            let at2 = at1.skip(n1 as int);
            let n2 = C::parse(at2, order)->Ok_0.1;
            let at3 = at2.skip(n2 as int);
            let n3 = D::parse(at3, order)->Ok_0.1;
            let at4 = at3.skip(n3 as int);
            assert(at1.skip(n1 as int) =~= all.skip((n0 + n1) as int));
            assert(at2.skip(n2 as int) =~= all.skip((n0 + n1 + n2) as int));
            assert(at3.skip(n3 as int) =~= all.skip((n0 + n1 + n2 + n3) as int));
            assert(<(C, D) as Shape>::parse(at2, order) is Ok);
            assert(<(B, (C, D)) as Shape>::parse(at1, order) is Ok);
        }
        Ok((v0, v1, v2, v3))
    }
}

} // verus!
