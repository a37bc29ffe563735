//! UTF-8 for a single character, and the check that bytes are UTF-8 text.

use vstd::prelude::*;

verus! {

const TAG_CONT: u8 = 0b1000_0000;

const TAG_TWO_B: u8 = 0b1100_0000;

const TAG_THREE_B: u8 = 0b1110_0000;

const TAG_FOUR_B: u8 = 0b1111_0000;

const MAX_ONE_B: u32 = 0x80;

const MAX_TWO_B: u32 = 0x800;

const MAX_THREE_B: u32 = 0x10000;

/// The width of a character by the first byte of its encoding.
const UTF8_CHAR_WIDTH: [u8; 256] = [
    1, 1, 1, 1, 1, 1, 1, 1, 1, 1, 1, 1, 1, 1, 1, 1,
    1, 1, 1, 1, 1, 1, 1, 1, 1, 1, 1, 1, 1, 1, 1, 1,
    1, 1, 1, 1, 1, 1, 1, 1, 1, 1, 1, 1, 1, 1, 1, 1,
    1, 1, 1, 1, 1, 1, 1, 1, 1, 1, 1, 1, 1, 1, 1, 1,
    1, 1, 1, 1, 1, 1, 1, 1, 1, 1, 1, 1, 1, 1, 1, 1,
    1, 1, 1, 1, 1, 1, 1, 1, 1, 1, 1, 1, 1, 1, 1, 1,
    1, 1, 1, 1, 1, 1, 1, 1, 1, 1, 1, 1, 1, 1, 1, 1,
    1, 1, 1, 1, 1, 1, 1, 1, 1, 1, 1, 1, 1, 1, 1, 1,
    0, 0, 0, 0, 0, 0, 0, 0, 0, 0, 0, 0, 0, 0, 0, 0,
    0, 0, 0, 0, 0, 0, 0, 0, 0, 0, 0, 0, 0, 0, 0, 0,
    0, 0, 0, 0, 0, 0, 0, 0, 0, 0, 0, 0, 0, 0, 0, 0,
    0, 0, 0, 0, 0, 0, 0, 0, 0, 0, 0, 0, 0, 0, 0, 0,
    0, 0, 2, 2, 2, 2, 2, 2, 2, 2, 2, 2, 2, 2, 2, 2,
    2, 2, 2, 2, 2, 2, 2, 2, 2, 2, 2, 2, 2, 2, 2, 2,
    3, 3, 3, 3, 3, 3, 3, 3, 3, 3, 3, 3, 3, 3, 3, 3,
    4, 4, 4, 4, 4, 0, 0, 0, 0, 0, 0, 0, 0, 0, 0, 0,
];

/// How many bytes the character takes whose encoding starts with `b`, or 0
/// where no encoding starts with `b`.
pub open spec fn char_width(b: u8) -> nat {
    if b <= 0x7F {
        1
    } else if b <= 0xC1 {
        0
    } else if b <= 0xDF {
        2
    } else if b <= 0xEF {
        3
    } else if b <= 0xF4 {
        4
    } else {
        0
    }
}

/// How many bytes the character takes whose encoding starts with `b`; 0 for
/// a byte that starts none.
pub fn utf8_char_width(b: u8) -> (w: usize)
    ensures
        w == char_width(b),
{
    UTF8_CHAR_WIDTH[b as usize] as usize
}

/// The one to four bytes of one character, at the end of a buffer of four.
pub struct EncodeUtf8 {
    buf: [u8; 4],
    pos: usize,
}

impl EncodeUtf8 {
    #[verifier::type_invariant]
    spec fn starts_inside(&self) -> bool {
        self.pos <= 3
    }

    /// The bytes of the character.
    pub closed spec fn view(&self) -> Seq<u8> {
        self.buf@.skip(self.pos as int)
    }

    /// The bytes of the character.
    pub fn as_slice(&self) -> (s: &[u8])
        ensures
            s@ == self@,
    {
        proof {
            use_type_invariant(self);
        }
        vstd::slice::slice_subrange(vstd::array::array_as_slice(&self.buf), self.pos, 4)
    }
}

/// The UTF-8 encoding of `c`.
pub fn encode_utf8(c: char) -> (e: EncodeUtf8)
    ensures
        e@ == vstd::utf8::encode_scalar(c as u32),
{
    let code: u32 = c as u32;
    let mut buf: [u8; 4] = [0; 4];
    let pos: usize = if code < MAX_ONE_B {
        assert(code & 0x7F == code) by (bit_vector)
            requires
                code < 0x80,
        ;
        buf[3] = code as u8;
        3
    } else if code < MAX_TWO_B {
        let b2: u32 = code >> 6 & 0x1F;
        let b3: u32 = code & 0x3F;
        assert(b2 < 0x100 && b3 < 0x100) by (bit_vector)
            requires
                b2 == code >> 6 & 0x1F,
                b3 == code & 0x3F,
        ;
        buf[2] = b2 as u8 | TAG_TWO_B;
        buf[3] = b3 as u8 | TAG_CONT;
        assert((b2 as u8) | 0xC0 == 0xC0 | (b2 as u8)) by (bit_vector);
        assert((b3 as u8) | 0x80 == 0x80 | (b3 as u8)) by (bit_vector);
        2
    } else if code < MAX_THREE_B {
        let b1: u32 = code >> 12 & 0x0F;
        let b2: u32 = code >> 6 & 0x3F;
        let b3: u32 = code & 0x3F;
        assert(b1 < 0x100 && b2 < 0x100 && b3 < 0x100) by (bit_vector)
            requires
                b1 == code >> 12 & 0x0F,
                b2 == code >> 6 & 0x3F,
                b3 == code & 0x3F,
        ;
        buf[1] = b1 as u8 | TAG_THREE_B;
        buf[2] = b2 as u8 | TAG_CONT;
        buf[3] = b3 as u8 | TAG_CONT;
        assert((b1 as u8) | 0xE0 == 0xE0 | (b1 as u8)) by (bit_vector);
        assert((b2 as u8) | 0x80 == 0x80 | (b2 as u8)) by (bit_vector);
        assert((b3 as u8) | 0x80 == 0x80 | (b3 as u8)) by (bit_vector);
        1
    } else {
        let b0: u32 = code >> 18 & 0x07;
        let b1: u32 = code >> 12 & 0x3F;
        let b2: u32 = code >> 6 & 0x3F;
        let b3: u32 = code & 0x3F;
        assert(b0 < 0x100 && b1 < 0x100 && b2 < 0x100 && b3 < 0x100) by (bit_vector)
            requires
                b0 == code >> 18 & 0x07,
                b1 == code >> 12 & 0x3F,
                b2 == code >> 6 & 0x3F,
                b3 == code & 0x3F,
        ;
        buf[0] = b0 as u8 | TAG_FOUR_B;
        buf[1] = b1 as u8 | TAG_CONT;
        buf[2] = b2 as u8 | TAG_CONT;
        buf[3] = b3 as u8 | TAG_CONT;
        assert((b0 as u8) | 0xF0 == 0xF0 | (b0 as u8)) by (bit_vector);
        assert((b1 as u8) | 0x80 == 0x80 | (b1 as u8)) by (bit_vector);
        assert((b2 as u8) | 0x80 == 0x80 | (b2 as u8)) by (bit_vector);
        assert((b3 as u8) | 0x80 == 0x80 | (b3 as u8)) by (bit_vector);
        0
    };
    let e = EncodeUtf8 { buf, pos };
    proof {
        vstd::utf8::char_is_scalar(c);
        assert(e@ =~= vstd::utf8::encode_scalar(code));
    }
    e
}

/// std's report of where bytes stop being UTF-8. Nothing of what it holds
/// is used here.
#[verifier::external_type_specification]
#[verifier::external_body]
pub struct ExUtf8Error(core::str::Utf8Error);

/// `core::str::from_utf8`: `v` as text, without a copy, exactly where `v` is
/// well-formed UTF-8. The text's bytes are then those of `v`. This is std's
/// documented behaviour, stated here and not proved.
#[verifier::external_body]
pub(crate) fn from_utf8<'a>(v: &'a [u8]) -> (r: Result<&'a str, core::str::Utf8Error>)
    ensures
        r is Ok <==> vstd::utf8::valid_utf8(v@),
        r matches Ok(s) ==> vstd::utf8::encode_utf8(s@) == v@,
{
    core::str::from_utf8(v)
}

} // verus!
