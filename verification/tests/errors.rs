use bincode_embedded::{
    deserialize, serialize, BufferWriter, BufferWriterError, DeserializeError, Deserializer,
    Endian, SerializeError, Serializer,
};

#[test]
fn option_mark_two_is_an_invalid_option_value() {
    let r = deserialize::<Option<u8>, _>(&[2u8, 0][..], Endian::Big);
    assert!(matches!(r, Err(DeserializeError::InvalidOptionValue(2))));
}

#[test]
fn bool_byte_five_is_an_invalid_bool_value() {
    let r = deserialize::<bool, _>(&[5u8][..], Endian::Big);
    assert!(matches!(r, Err(DeserializeError::InvalidBoolValue(5))));
}

#[test]
fn char_with_leading_byte_c0_is_an_invalid_encoding() {
    let r = deserialize::<char, _>(&[0xC0u8, 0x80][..], Endian::Big);
    assert!(matches!(r, Err(DeserializeError::InvalidCharEncoding)));
}

#[test]
fn char_with_a_continuation_byte_first_is_an_invalid_encoding() {
    for first in [0x80u8, 0xBF, 0xC1, 0xF5, 0xFF] {
        let data = [first, 0x80, 0x80, 0x80];
        let r = deserialize::<char, _>(&data[..], Endian::Big);
        assert!(matches!(r, Err(DeserializeError::InvalidCharEncoding)));
    }
}

#[test]
fn char_with_a_bad_continuation_is_a_utf8_error() {
    let r = deserialize::<char, _>(&[0xC3u8, 0x41][..], Endian::Big);
    assert!(matches!(r, Err(DeserializeError::Utf8(_))));
    let r = deserialize::<char, _>(&[0xE2u8, 0x82, 0x41][..], Endian::Big);
    assert!(matches!(r, Err(DeserializeError::Utf8(_))));
}

#[test]
fn char_that_is_overlong_or_a_surrogate_is_a_utf8_error() {
    let r = deserialize::<char, _>(&[0xE0u8, 0x80, 0x80][..], Endian::Big);
    assert!(matches!(r, Err(DeserializeError::Utf8(_))));
    let r = deserialize::<char, _>(&[0xEDu8, 0xA0, 0x80][..], Endian::Big);
    assert!(matches!(r, Err(DeserializeError::Utf8(_))));
    let r = deserialize::<char, _>(&[0xF4u8, 0x90, 0x80, 0x80][..], Endian::Big);
    assert!(matches!(r, Err(DeserializeError::Utf8(_))));
}

#[test]
fn str_that_is_not_utf8_is_a_utf8_error() {
    let r = deserialize::<&str, _>(&[0u8, 1, 0xC0][..], Endian::Big);
    assert!(matches!(r, Err(DeserializeError::Utf8(_))));
    let r = deserialize::<&str, _>(&[0u8, 2, b'a', 0xFF][..], Endian::Big);
    assert!(matches!(r, Err(DeserializeError::Utf8(_))));
    let r = deserialize::<&str, _>(&[0u8, 1, 0xC3, 0xA9][..], Endian::Big);
    assert!(matches!(r, Err(DeserializeError::Utf8(_))));
}

#[test]
fn bytes_need_not_be_utf8() {
    assert_eq!(
        deserialize::<&[u8], _>(&[0u8, 1, 0xC0][..], Endian::Big).unwrap(),
        &[0xC0u8][..]
    );
}

#[test]
fn utf8_error_converts_into_a_deserialize_error() {
    let error = core::str::from_utf8(&[0xC0u8]).unwrap_err();
    let converted: DeserializeError<'static, &'static [u8]> = DeserializeError::from(error);
    assert!(matches!(converted, DeserializeError::Utf8(e) if e == error));
}

#[test]
fn an_empty_buffer_is_a_read_error_for_every_kind() {
    let empty: &[u8] = &[];
    assert!(matches!(deserialize::<bool, _>(empty, Endian::Big), Err(DeserializeError::Read(()))));
    assert!(matches!(deserialize::<u8, _>(empty, Endian::Big), Err(DeserializeError::Read(()))));
    assert!(matches!(deserialize::<i8, _>(empty, Endian::Big), Err(DeserializeError::Read(()))));
    assert!(matches!(deserialize::<u16, _>(empty, Endian::Big), Err(DeserializeError::Read(()))));
    assert!(matches!(deserialize::<i128, _>(empty, Endian::Big), Err(DeserializeError::Read(()))));
    assert!(matches!(deserialize::<char, _>(empty, Endian::Big), Err(DeserializeError::Read(()))));
    assert!(matches!(deserialize::<&str, _>(empty, Endian::Big), Err(DeserializeError::Read(()))));
    assert!(matches!(deserialize::<&[u8], _>(empty, Endian::Big), Err(DeserializeError::Read(()))));
    assert!(matches!(
        deserialize::<Option<u8>, _>(empty, Endian::Big),
        Err(DeserializeError::Read(()))
    ));
    assert!(matches!(
        deserialize::<(u8, u8), _>(empty, Endian::Big),
        Err(DeserializeError::Read(()))
    ));
    assert!(matches!(
        deserialize::<[u8; 1], _>(empty, Endian::Big),
        Err(DeserializeError::Read(()))
    ));
    let mut deserializer = Deserializer::new(empty, Endian::Big);
    assert!(matches!(deserializer.deserialize_seq(), Err(DeserializeError::Read(()))));
    assert!(matches!(deserializer.deserialize_map(), Err(DeserializeError::Read(()))));
    assert!(matches!(
        deserializer.deserialize_enum("E", &["A"]),
        Err(DeserializeError::Read(()))
    ));
}

#[test]
fn a_length_beyond_the_buffer_is_a_read_error() {
    let r = deserialize::<&str, _>(&[0u8, 5, b'a', b'b'][..], Endian::Big);
    assert!(matches!(r, Err(DeserializeError::Read(()))));
    let r = deserialize::<&[u8], _>(&[0xFFu8, 0xFF][..], Endian::Big);
    assert!(matches!(r, Err(DeserializeError::Read(()))));
}

#[test]
fn the_first_error_ends_the_call() {
    let r = deserialize::<(bool, u16), _>(&[5u8][..], Endian::Big);
    assert!(matches!(r, Err(DeserializeError::InvalidBoolValue(5))));
    let r = deserialize::<(u16, bool), _>(&[0u8, 1, 9][..], Endian::Big);
    assert!(matches!(r, Err(DeserializeError::InvalidBoolValue(9))));
    let r = deserialize::<(Option<bool>, u8), _>(&[1u8, 7, 0][..], Endian::Big);
    assert!(matches!(r, Err(DeserializeError::InvalidBoolValue(7))));
}

#[test]
fn a_failed_element_still_counts_against_the_sequence() {
    let data = [0u8, 2, 5];
    let mut deserializer = Deserializer::new(&data[..], Endian::Big);
    let mut seq = deserializer.deserialize_seq().unwrap();
    assert!(matches!(
        seq.next_element::<bool>(),
        Err(DeserializeError::InvalidBoolValue(5))
    ));
    assert_eq!(seq.size_hint(), Some(1));
}

#[test]
fn a_full_sink_is_a_write_error() {
    let mut buffer = [0u8; 3];
    let mut writer = BufferWriter::new(&mut buffer);
    let r = serialize(&0x0102_0304u32, &mut writer, Endian::Big);
    assert!(matches!(r, Err(SerializeError::Write(BufferWriterError::BufferTooSmall))));
}

#[test]
fn a_sink_with_exactly_enough_room_is_no_error() {
    let mut buffer = [0u8; 4];
    let mut writer = BufferWriter::new(&mut buffer);
    serialize(&0x0102_0304u32, &mut writer, Endian::Big).unwrap();
    assert_eq!(writer.written_len(), 4);
    let r = serialize(&(), &mut writer, Endian::Big);
    assert!(r.is_ok());
    let r = serialize(&1u8, &mut writer, Endian::Big);
    assert!(matches!(r, Err(SerializeError::Write(BufferWriterError::BufferTooSmall))));
}

#[test]
fn a_full_sink_is_a_write_error_for_every_kind() {
    fn full<F>(fill: F) -> bool
    where
        F: FnOnce(&mut Serializer<'_, BufferWriter<'_>>) -> bool,
    {
        let mut buffer = [0u8; 0];
        let mut writer = BufferWriter::new(&mut buffer);
        let mut serializer = Serializer::new(&mut writer, Endian::Big);
        fill(&mut serializer)
    }
    fn is_write<T>(r: Result<T, SerializeError<BufferWriter<'_>>>) -> bool {
        matches!(r, Err(SerializeError::Write(BufferWriterError::BufferTooSmall)))
    }
    assert!(full(|s| is_write(s.serialize_bool(true))));
    assert!(full(|s| is_write(s.serialize_i8(1))));
    assert!(full(|s| is_write(s.serialize_u8(1))));
    assert!(full(|s| is_write(s.serialize_i16(1))));
    assert!(full(|s| is_write(s.serialize_u64(1))));
    assert!(full(|s| is_write(s.serialize_i128(1))));
    assert!(full(|s| is_write(s.serialize_char('a'))));
    assert!(full(|s| is_write(s.serialize_str(""))));
    assert!(full(|s| is_write(s.serialize_bytes(&[]))));
    assert!(full(|s| is_write(s.serialize_none())));
    assert!(full(|s| is_write(s.serialize_some(&()))));
    assert!(full(|s| is_write(s.serialize_unit_variant("E", 0, "A"))));
    assert!(full(|s| is_write(s.serialize_newtype_variant("E", 0, "A", &()))));
    assert!(full(|s| is_write(s.serialize_seq(Some(0)))));
    assert!(full(|s| is_write(s.serialize_map(Some(0)))));
    assert!(full(|s| is_write(s.serialize_tuple_variant("E", 0, "A", 0))));
    assert!(full(|s| is_write(s.serialize_struct_variant("E", 0, "A", 0))));
    assert!(full(|s| s.serialize_unit().is_ok()));
    assert!(full(|s| s.serialize_tuple(3).is_ok()));
    assert!(full(|s| s.serialize_struct("S", 3).is_ok()));
}

#[test]
fn a_sequence_without_a_length_cannot_start() {
    let mut buffer = [0u8; 8];
    let mut writer = BufferWriter::new(&mut buffer);
    {
        let mut serializer = Serializer::new(&mut writer, Endian::Big);
        assert!(matches!(
            serializer.serialize_seq(None),
            Err(SerializeError::SequenceMustHaveLength)
        ));
    }
    assert_eq!(writer.written_len(), 0);
}

#[test]
fn a_map_without_a_length_cannot_start() {
    let mut buffer = [0u8; 8];
    let mut writer = BufferWriter::new(&mut buffer);
    {
        let mut serializer = Serializer::new(&mut writer, Endian::Big);
        assert!(matches!(
            serializer.serialize_map(None),
            Err(SerializeError::SequenceMustHaveLength)
        ));
    }
    assert_eq!(writer.written_len(), 0);
}
