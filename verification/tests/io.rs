use bincode_embedded::{BufferWriter, BufferWriterError, CoreRead, CoreWrite};

#[test]
fn a_new_writer_has_written_nothing() {
    let mut buffer = [9u8; 4];
    let writer = BufferWriter::new(&mut buffer);
    assert_eq!(writer.written_len(), 0);
    assert_eq!(writer.written_buffer(), &[][..]);
}

#[test]
fn written_bytes_fill_the_buffer_from_the_front() {
    let mut buffer = [0u8; 4];
    let mut writer = BufferWriter::new(&mut buffer);
    writer.write(7).unwrap();
    writer.write(8).unwrap();
    assert_eq!(writer.written_len(), 2);
    assert_eq!(writer.written_buffer(), &[7, 8][..]);
    assert_eq!(buffer, [7, 8, 0, 0]);
}

#[test]
fn written_buffer_is_the_prefix_of_the_buffer() {
    let mut buffer = [0u8; 5];
    let len;
    let copy;
    {
        let mut writer = BufferWriter::new(&mut buffer);
        writer.write_all(&[1, 2, 3]).unwrap();
        len = writer.written_len();
        copy = writer.written_buffer().to_vec();
    }
    assert_eq!(&buffer[..len], &copy[..]);
}

#[test]
fn a_full_writer_reports_buffer_too_small() {
    let mut buffer = [0u8; 2];
    let mut writer = BufferWriter::new(&mut buffer);
    assert_eq!(writer.write(1), Ok(()));
    assert_eq!(writer.write(2), Ok(()));
    assert_eq!(writer.write(3), Err(BufferWriterError::BufferTooSmall));
    assert_eq!(writer.written_len(), 2);
    assert_eq!(writer.written_buffer(), &[1, 2][..]);
}

#[test]
fn a_writer_without_room_refuses_the_first_byte() {
    let mut buffer = [0u8; 0];
    let mut writer = BufferWriter::new(&mut buffer);
    assert_eq!(writer.write(1), Err(BufferWriterError::BufferTooSmall));
    assert_eq!(writer.written_len(), 0);
}

#[test]
fn write_all_reports_a_slice_that_does_not_fit() {
    let mut buffer = [0u8; 3];
    let mut writer = BufferWriter::new(&mut buffer);
    assert_eq!(writer.write_all(&[1, 2, 3, 4]), Err(BufferWriterError::BufferTooSmall));
    assert!(writer.written_len() <= 3);
}

#[test]
fn write_all_of_what_fits_exactly() {
    let mut buffer = [0u8; 3];
    let mut writer = BufferWriter::new(&mut buffer);
    assert_eq!(writer.write_all(&[1, 2, 3]), Ok(()));
    assert_eq!(writer.written_buffer(), &[1, 2, 3][..]);
    assert_eq!(writer.write_all(&[]), Ok(()));
    assert_eq!(writer.written_len(), 3);
}

#[test]
fn flush_changes_nothing() {
    let mut buffer = [0u8; 3];
    let mut writer = BufferWriter::new(&mut buffer);
    writer.write(5).unwrap();
    assert_eq!(writer.flush(), Ok(()));
    assert_eq!(writer.written_buffer(), &[5][..]);
}

#[test]
fn a_reference_to_a_writer_is_a_writer() {
    fn put<W: CoreWrite>(mut writer: W) -> Result<(), W::Error> {
        writer.write(1)?;
        writer.write_all(&[2, 3])?;
        writer.flush()
    }
    let mut buffer = [0u8; 3];
    let mut writer = BufferWriter::new(&mut buffer);
    assert_eq!(put(&mut writer), Ok(()));
    assert_eq!(writer.written_buffer(), &[1, 2, 3][..]);
    assert_eq!(put(&mut writer), Err(BufferWriterError::BufferTooSmall));
}

#[test]
fn a_slice_hands_out_its_bytes_in_order() {
    let data = [1u8, 2, 3, 4, 5];
    let mut reader: &[u8] = &data;
    assert_eq!(reader.read(), Ok(1));
    assert_eq!(reader.read_range(3), Ok(&[2u8, 3, 4][..]));
    assert_eq!(reader, &[5u8][..]);
    assert_eq!(reader.read_range(0), Ok(&[][..]));
    assert_eq!(reader.read(), Ok(5));
    assert_eq!(reader.read(), Err(()));
}

#[test]
fn a_slice_never_hands_out_fewer_bytes_than_asked() {
    let data = [1u8, 2, 3];
    let mut reader: &[u8] = &data;
    assert_eq!(reader.read_range(4), Err(()));
    assert_eq!(reader, &[1u8, 2, 3][..]);
    assert_eq!(reader.read_range(3), Ok(&[1u8, 2, 3][..]));
    assert_eq!(reader.read_range(1), Err(()));
}

#[test]
fn what_a_slice_hands_out_lies_in_the_buffer() {
    let data = [1u8, 2, 3, 4];
    let mut reader: &[u8] = &data;
    reader.read().unwrap();
    let part = reader.read_range(2).unwrap();
    assert_eq!(part.as_ptr() as usize, data.as_ptr() as usize + 1);
}
