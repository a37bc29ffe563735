use bincode_embedded::{
    deserialize, serialize, BufferWriter, Decode, DeserializeError, Encode, Endian,
};

fn encoded<T: Encode>(value: &T, order: Endian) -> Vec<u8> {
    let mut buffer = vec![0u8; 256];
    let mut writer = BufferWriter::new(&mut buffer);
    serialize(value, &mut writer, order).unwrap();
    writer.written_buffer().to_vec()
}

fn reads_back<'a, T>(value: T, bytes: &'a mut Vec<u8>, order: Endian)
where
    T: Encode + Decode<'a> + PartialEq + core::fmt::Debug,
{
    *bytes = encoded(&value, order);
    let back: T = deserialize(&bytes[..], order).unwrap();
    assert_eq!(back, value);
}

#[test]
fn every_kind_of_value_reads_back_as_written() {
    for order in [Endian::Big, Endian::Little] {
        reads_back((), &mut Vec::new(), order);
        reads_back(true, &mut Vec::new(), order);
        reads_back(false, &mut Vec::new(), order);
        reads_back(0xA5u8, &mut Vec::new(), order);
        reads_back(-7i8, &mut Vec::new(), order);
        reads_back(0xBEEFu16, &mut Vec::new(), order);
        reads_back(-12345i16, &mut Vec::new(), order);
        reads_back(0xDEAD_BEEFu32, &mut Vec::new(), order);
        reads_back(i32::MIN, &mut Vec::new(), order);
        reads_back(u64::MAX, &mut Vec::new(), order);
        reads_back(i64::MIN, &mut Vec::new(), order);
        reads_back(u128::MAX - 1, &mut Vec::new(), order);
        reads_back(i128::MIN + 1, &mut Vec::new(), order);
        reads_back('\u{0}', &mut Vec::new(), order);
        reads_back('\u{7ff}', &mut Vec::new(), order);
        reads_back('\u{d7ff}', &mut Vec::new(), order);
        reads_back('\u{e000}', &mut Vec::new(), order);
        reads_back('\u{10ffff}', &mut Vec::new(), order);
        reads_back("", &mut Vec::new(), order);
        reads_back("gr\u{fc}\u{df}e \u{1F600}", &mut Vec::new(), order);
        reads_back(&b""[..], &mut Vec::new(), order);
        reads_back(&[0u8, 0xFF, 0xC0, 0x80][..], &mut Vec::new(), order);
        reads_back(None::<u32>, &mut Vec::new(), order);
        reads_back(Some(0x0102_0304u32), &mut Vec::new(), order);
        reads_back(Some(Some("x")), &mut Vec::new(), order);
        reads_back([1u8, 2, 3], &mut Vec::new(), order);
        reads_back((1u8, "two"), &mut Vec::new(), order);
        reads_back((1u8, -2i64, '3'), &mut Vec::new(), order);
        reads_back((Some(true), &b"raw"[..], (5u16, 6u32), [7u8; 2]), &mut Vec::new(), order);
    }
}

#[test]
fn every_character_reads_back_as_written() {
    let mut buffer = [0u8; 4];
    for code in (0..=0x10FFFFu32).step_by(97).chain([0x7F, 0x80, 0x7FF, 0x800, 0xFFFF, 0x10000, 0x10FFFF]) {
        if let Some(c) = char::from_u32(code) {
            let len = {
                let mut writer = BufferWriter::new(&mut buffer);
                serialize(&c, &mut writer, Endian::Big).unwrap();
                writer.written_len()
            };
            assert_eq!(len, c.len_utf8());
            let back: char = deserialize(&buffer[..len], Endian::Big).unwrap();
            assert_eq!(back, c);
        }
    }
}

#[test]
fn encoding_twice_gives_the_same_bytes() {
    let value = (0x0102u16, Some("text"), &[9u8, 8][..], ('c', -5i32));
    for order in [Endian::Big, Endian::Little] {
        assert_eq!(encoded(&value, order), encoded(&value, order));
    }
    let other = (0x0102u16, Some("text"), &[9u8, 8][..], ('c', -5i32));
    assert_eq!(encoded(&value, Endian::Big), encoded(&other, Endian::Big));
    assert_ne!(encoded(&value, Endian::Big), encoded(&value, Endian::Little));
}

#[test]
fn encoding_does_not_depend_on_what_was_written_before() {
    let mut buffer = [0u8; 32];
    let mut writer = BufferWriter::new(&mut buffer);
    serialize(&"first", &mut writer, Endian::Big).unwrap();
    let before = writer.written_len();
    serialize(&(1u8, 2u16), &mut writer, Endian::Big).unwrap();
    assert_eq!(&writer.written_buffer()[before..], &encoded(&(1u8, 2u16), Endian::Big)[..]);
}

#[test]
fn length_prefix_is_the_count_of_bytes_read() {
    let bytes = encoded(&("h\u{e9}llo", 0xAAu8), Endian::Big);
    assert_eq!(&bytes[..2], &[0, 6][..]);
    let (text, mark): (&str, u8) = deserialize(&bytes[..], Endian::Big).unwrap();
    assert_eq!(text.len(), 6);
    assert_eq!(mark, 0xAA);

    let bytes = encoded(&(&[1u8, 2, 3][..], 0xBBu8), Endian::Little);
    assert_eq!(&bytes[..2], &[3, 0][..]);
    let (raw, mark): (&[u8], u8) = deserialize(&bytes[..], Endian::Little).unwrap();
    assert_eq!(raw.len(), 3);
    assert_eq!(mark, 0xBB);
}

fn one_byte_short<'a, T>(value: T, bytes: &'a mut Vec<u8>, order: Endian)
where
    T: Encode + Decode<'a> + core::fmt::Debug,
{
    *bytes = encoded(&value, order);
    for cut in 0..bytes.len() {
        let r: Result<T, _> = deserialize(&bytes[..cut], order);
        assert!(matches!(r, Err(DeserializeError::Read(()))));
    }
    let whole: Result<T, _> = deserialize(&bytes[..], order);
    assert!(whole.is_ok());
}

#[test]
fn a_buffer_that_ends_early_is_a_read_error() {
    for order in [Endian::Big, Endian::Little] {
        one_byte_short(true, &mut Vec::new(), order);
        one_byte_short(7u8, &mut Vec::new(), order);
        one_byte_short(-7i8, &mut Vec::new(), order);
        one_byte_short(0x0102u16, &mut Vec::new(), order);
        one_byte_short(-3i32, &mut Vec::new(), order);
        one_byte_short(u64::MAX, &mut Vec::new(), order);
        one_byte_short(i128::MIN, &mut Vec::new(), order);
        one_byte_short('\u{e9}', &mut Vec::new(), order);
        one_byte_short('\u{1F600}', &mut Vec::new(), order);
        one_byte_short("h\u{e9}llo", &mut Vec::new(), order);
        one_byte_short(&[1u8, 2, 3][..], &mut Vec::new(), order);
        one_byte_short(Some(0x0102u16), &mut Vec::new(), order);
        one_byte_short(None::<u8>, &mut Vec::new(), order);
        one_byte_short([1u8, 2, 3], &mut Vec::new(), order);
        one_byte_short((1u16, 2u32, &b"test"[..], "tesT"), &mut Vec::new(), order);
    }
}

#[test]
fn a_value_takes_no_more_bytes_than_were_written() {
    let mut bytes = encoded(&(Some("ab"), 0x0102u16), Endian::Big);
    let own = bytes.len();
    bytes.extend_from_slice(&[0xEE, 0xEE, 0xEE]);
    let mut rest: &[u8] = &bytes;
    let value: (Option<&str>, u16) = {
        let mut deserializer = bincode_embedded::Deserializer::new(rest, Endian::Big);
        let value = Decode::decode(&mut deserializer).unwrap();
        let mut left = 0;
        while deserializer.deserialize_u8().is_ok() {
            left += 1;
        }
        assert_eq!(left, 3);
        value
    };
    assert_eq!(value, (Some("ab"), 0x0102));
    rest = &rest[own..];
    assert_eq!(rest, &[0xEEu8, 0xEE, 0xEE][..]);
}
