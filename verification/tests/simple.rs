use bincode_embedded::{
    deserialize, serialize, BufferWriter, CoreRead, CoreWrite, DeserializeError, Deserializer,
    Endian, SerializeError, Serializer,
};

#[derive(PartialEq, Debug)]
pub struct TestStruct {
    a: u8,
    b: u16,
    c: u32,
    d: u64,
    e: u128,

    opt: Option<u8>,
    buff: [u8; 3],
}

fn write_test_struct<W: CoreWrite>(
    value: &TestStruct,
    serializer: &mut Serializer<'_, W>,
) -> Result<(), SerializeError<W>> {
    let mut state = serializer.serialize_struct("TestStruct", 7)?;
    state.serialize_field("a", &value.a)?;
    state.serialize_field("b", &value.b)?;
    state.serialize_field("c", &value.c)?;
    state.serialize_field("d", &value.d)?;
    state.serialize_field("e", &value.e)?;
    state.serialize_field("opt", &value.opt)?;
    state.serialize_field("buff", &value.buff)?;
    state.end()
}

fn read_test_struct<'a, R: CoreRead<'a>>(
    deserializer: &mut Deserializer<'a, R>,
) -> Result<TestStruct, DeserializeError<'a, R>> {
    let mut fields =
        deserializer.deserialize_struct("TestStruct", &["a", "b", "c", "d", "e", "opt", "buff"])?;
    let a = fields.next_element()?.unwrap();
    let b = fields.next_element()?.unwrap();
    let c = fields.next_element()?.unwrap();
    let d = fields.next_element()?.unwrap();
    let e = fields.next_element()?.unwrap();
    let opt = fields.next_element()?.unwrap();
    let buff = fields.next_element()?.unwrap();
    assert!(fields.next_element::<u8>()?.is_none());
    Ok(TestStruct { a, b, c, d, e, opt, buff })
}

#[test]
fn simple_struct() {
    let s = TestStruct {
        a: 1,
        b: 2,
        c: 3,
        d: 4,
        e: 5,
        opt: Some(6),
        buff: [7, 8, 9],
    };

    let mut buffer = [0u8; 100];
    let mut writer = BufferWriter::new(&mut buffer);
    let mut serializer = Serializer::new(&mut writer, Endian::Big);
    write_test_struct(&s, &mut serializer).unwrap();
    println!("Buffer: {:?}", writer.written_buffer());

    let mut deserializer = Deserializer::new(&buffer[..], Endian::Big);
    let deserialized: TestStruct = read_test_struct(&mut deserializer).unwrap();
    assert_eq!(s, deserialized);
}

#[test]
fn simple_tuple() {
    let s = (1u16, 2u32, &b"test"[..], "tesT");

    let mut buffer = [0u8; 100];
    let mut writer = BufferWriter::new(&mut buffer);
    serialize(&s, &mut writer, Endian::Big).unwrap();
    println!("Buffer: {:?}", writer.written_buffer());

    let deserialized: (u16, u32, &[u8], &str) = deserialize(&buffer[..], Endian::Big).unwrap();
    assert_eq!(s, deserialized);
}

#[test]
fn simple_struct_bytes() {
    let s = TestStruct {
        a: 1,
        b: 2,
        c: 3,
        d: 4,
        e: 5,
        opt: Some(6),
        buff: [7, 8, 9],
    };
    let mut buffer = [0u8; 100];
    let mut writer = BufferWriter::new(&mut buffer);
    let mut serializer = Serializer::new(&mut writer, Endian::Big);
    write_test_struct(&s, &mut serializer).unwrap();
    let mut expected = vec![1u8, 0, 2, 0, 0, 0, 3, 0, 0, 0, 0, 0, 0, 0, 4];
    expected.extend_from_slice(&[0, 0, 0, 0, 0, 0, 0, 0, 0, 0, 0, 0, 0, 0, 0, 5]);
    expected.extend_from_slice(&[1, 6, 7, 8, 9]);
    assert_eq!(writer.written_len(), 36);
    assert_eq!(writer.written_buffer(), &expected[..]);
}

#[test]
fn simple_tuple_bytes() {
    let s = (1u16, 2u32, &b"test"[..], "tesT");
    let mut buffer = [0u8; 100];
    let mut writer = BufferWriter::new(&mut buffer);
    serialize(&s, &mut writer, Endian::Big).unwrap();
    assert_eq!(
        writer.written_buffer(),
        &[0, 1, 0, 0, 0, 2, 0, 4, b't', b'e', b's', b't', 0, 4, b't', b'e', b's', b'T'][..]
    );
}

#[test]
fn simple_tuple_borrows_from_the_buffer() {
    let s = (1u16, 2u32, &b"test"[..], "tesT");
    let mut buffer = [0u8; 100];
    let mut writer = BufferWriter::new(&mut buffer);
    serialize(&s, &mut writer, Endian::Big).unwrap();

    let deserialized: (u16, u32, &[u8], &str) = deserialize(&buffer[..], Endian::Big).unwrap();
    let start = buffer.as_ptr() as usize;
    let bytes_at = deserialized.2.as_ptr() as usize;
    let text_at = deserialized.3.as_ptr() as usize;
    assert_eq!(bytes_at, start + 8);
    assert_eq!(text_at, start + 14);
}
