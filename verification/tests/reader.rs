use substream::{BufRead, Cursor, Error, OutOfRange, Read, Seek, SeekFrom, SubReader};

fn digits() -> Vec<u8> {
    (0..10).collect()
}

fn reader(start: u64, length: u64) -> SubReader<Cursor> {
    SubReader::new_seek(Cursor::new(digits()), SeekFrom::Start(start), length).unwrap()
}

#[test]
fn test_subreader() {
    let data: Vec<u8> = (0..10).collect();
    let cursor = Cursor::new(data);
    let mut subreader = SubReader::new_seek(cursor, SeekFrom::Start(3), 5).unwrap();
    let mut buf = Vec::default();
    subreader.read_to_end(&mut buf).unwrap();
    assert_eq!(&buf, &[3, 4, 5, 6, 7]);
}

#[test]
fn read_is_clamped_to_the_window() {
    let mut r = reader(3, 5);
    let mut buf = [0xaa_u8; 8];
    assert_eq!(r.read(&mut buf).unwrap(), 5);
    assert_eq!(buf, [3, 4, 5, 6, 7, 0xaa, 0xaa, 0xaa]);
    assert_eq!(r.stream_position().unwrap(), 5);
    assert_eq!(r.inner_stream_position(), 8);
    assert_eq!(r.inner().position(), 8);
}

#[test]
fn read_is_clamped_to_the_buffer() {
    let mut r = reader(3, 5);
    let mut buf = [0_u8; 2];
    assert_eq!(r.read(&mut buf).unwrap(), 2);
    assert_eq!(buf, [3, 4]);
    assert_eq!(r.read(&mut buf).unwrap(), 2);
    assert_eq!(buf, [5, 6]);
    assert_eq!(r.read(&mut buf).unwrap(), 1);
    assert_eq!(buf, [7, 6]);
    assert_eq!(r.read(&mut buf).unwrap(), 0);
    assert_eq!(buf, [7, 6]);
}

#[test]
fn read_is_clamped_to_the_stream() {
    let mut r = reader(8, 5);
    let mut buf = [0_u8; 8];
    assert_eq!(r.read(&mut buf).unwrap(), 2);
    assert_eq!(buf, [8, 9, 0, 0, 0, 0, 0, 0]);
    assert_eq!(r.read(&mut buf).unwrap(), 0);
    assert_eq!(r.stream_position().unwrap(), 2);
}

#[test]
fn read_at_the_end_leaves_the_stream_alone() {
    let mut r = reader(3, 0);
    let mut buf = [9_u8; 4];
    assert_eq!(r.read(&mut buf).unwrap(), 0);
    assert_eq!(buf, [9, 9, 9, 9]);
    assert_eq!(r.inner().position(), 3);
}

#[test]
fn read_with_an_empty_buffer() {
    let mut r = reader(3, 5);
    let mut buf = [0_u8; 0];
    assert_eq!(r.read(&mut buf).unwrap(), 0);
    assert_eq!(r.stream_position().unwrap(), 0);
}

#[test]
fn seek_then_position() {
    for k in 0..=5_u64 {
        let mut r = reader(3, 5);
        assert_eq!(r.seek(SeekFrom::Start(k)).unwrap(), k);
        assert_eq!(r.stream_position().unwrap(), k);
        assert_eq!(r.inner_stream_position(), 3 + k);
        assert_eq!(r.inner().position(), 3 + k);
    }
}

#[test]
fn seek_from_the_end_reads_the_last_byte() {
    let mut r = reader(3, 5);
    assert_eq!(r.seek(SeekFrom::End(-1)).unwrap(), 4);
    let mut buf = [0_u8; 1];
    assert_eq!(r.read(&mut buf).unwrap(), 1);
    assert_eq!(buf, [7]);
    assert_eq!(r.read(&mut buf).unwrap(), 0);
}

#[test]
fn seek_from_the_current_position() {
    let mut r = reader(3, 5);
    assert_eq!(r.seek(SeekFrom::Current(2)).unwrap(), 2);
    assert_eq!(r.seek(SeekFrom::Current(2)).unwrap(), 4);
    assert_eq!(r.seek(SeekFrom::Current(-3)).unwrap(), 1);
    let mut buf = [0_u8; 2];
    assert_eq!(r.read(&mut buf).unwrap(), 2);
    assert_eq!(buf, [4, 5]);
}

#[test]
fn seek_relative_moves_both() {
    let mut r = reader(3, 5);
    r.seek_relative(4).unwrap();
    assert_eq!(r.stream_position().unwrap(), 4);
    r.seek_relative(-2).unwrap();
    assert_eq!(r.stream_position().unwrap(), 2);
    assert_eq!(r.inner().position(), 5);
    assert_eq!(r.seek_relative(-3), Err(Error::OutOfBounds));
    assert_eq!(r.stream_position().unwrap(), 2);
}

#[test]
fn seek_before_the_start_is_refused() {
    let mut r = reader(3, 5);
    r.seek(SeekFrom::Start(2)).unwrap();
    assert_eq!(r.seek(SeekFrom::Current(-3)), Err(Error::OutOfBounds));
    assert_eq!(r.seek(SeekFrom::End(-6)), Err(Error::OutOfBounds));
    assert_eq!(r.seek(SeekFrom::End(i64::MIN)), Err(Error::OutOfBounds));
    assert_eq!(r.stream_position().unwrap(), 2);
    assert_eq!(r.inner_stream_position(), 5);
    assert_eq!(r.inner().position(), 5);
    let mut buf = [0_u8; 1];
    assert_eq!(r.read(&mut buf).unwrap(), 1);
    assert_eq!(buf, [5]);
}

#[test]
fn seek_that_overflows_is_refused() {
    let mut r = reader(3, 5);
    assert_eq!(r.seek(SeekFrom::Start(u64::MAX)), Err(Error::OutOfBounds));
    assert_eq!(r.seek(SeekFrom::Start(u64::MAX - 3)), Err(Error::OutOfBounds));
    assert_eq!(r.seek(SeekFrom::Start(1 << 63)), Err(Error::OutOfBounds));
    assert_eq!(r.stream_position().unwrap(), 0);
    assert_eq!(r.seek(SeekFrom::Current(i64::MAX)).unwrap(), i64::MAX as u64);
    assert_eq!(r.seek(SeekFrom::Current(i64::MAX - 3)).unwrap(), u64::MAX - 4);
    assert_eq!(r.inner_stream_position(), u64::MAX - 1);
    assert_eq!(r.seek(SeekFrom::Current(2)), Err(Error::OutOfBounds));
    assert_eq!(r.seek(SeekFrom::Start(0)), Err(Error::OutOfBounds));
    assert_eq!(r.stream_position().unwrap(), u64::MAX - 4);
    assert_eq!(r.seek(SeekFrom::Current(1)).unwrap(), u64::MAX - 3);
}

#[test]
fn seek_past_the_end_is_allowed() {
    let mut r = reader(3, 5);
    assert_eq!(r.seek(SeekFrom::End(2)).unwrap(), 7);
    let mut buf = [0_u8; 4];
    assert_eq!(r.read(&mut buf).unwrap(), 0);
    assert_eq!(r.seek(SeekFrom::Start(0)).unwrap(), 0);
    assert_eq!(r.read(&mut buf).unwrap(), 4);
    assert_eq!(buf, [3, 4, 5, 6]);
}

#[test]
fn new_unchecked_takes_the_position_on_trust() {
    let mut cursor = Cursor::new(digits());
    cursor.set_position(6);
    let mut r = SubReader::new_unchecked(cursor, 6, 2);
    assert_eq!(r.inner_stream_position(), 6);
    assert_eq!(r.stream_position().unwrap(), 0);
    let mut out = Vec::new();
    assert_eq!(r.read_to_end(&mut out).unwrap(), 2);
    assert_eq!(out, [6, 7]);
}

#[test]
fn new_from_starts_at_the_cursor() {
    let mut cursor = Cursor::new(digits());
    cursor.seek(SeekFrom::Start(4)).unwrap();
    let mut r = SubReader::new_from(cursor, 3).unwrap();
    assert_eq!(r.inner_stream_position(), 4);
    let mut out = vec![0xff];
    assert_eq!(r.read_to_end(&mut out).unwrap(), 3);
    assert_eq!(out, [0xff, 4, 5, 6]);
}

#[test]
fn new_seek_from_the_end() {
    let mut r = SubReader::new_seek(Cursor::new(digits()), SeekFrom::End(-4), 2).unwrap();
    assert_eq!(r.inner_stream_position(), 6);
    let mut out = Vec::new();
    r.read_to_end(&mut out).unwrap();
    assert_eq!(out, [6, 7]);
}

#[test]
fn new_seek_hands_on_the_failure_of_the_stream() {
    let r = SubReader::new_seek(Cursor::new(digits()), SeekFrom::End(-11), 2);
    assert_eq!(r.err(), Some(Error::Inner(OutOfRange)));
}

#[test]
fn new_seek_refuses_a_window_past_the_last_offset() {
    let r = SubReader::new_seek(Cursor::new(digits()), SeekFrom::Start(2), u64::MAX - 1);
    assert_eq!(r.err(), Some(Error::OutOfBounds));
    let r = SubReader::new_seek(Cursor::new(digits()), SeekFrom::Start(2), u64::MAX - 2);
    assert!(r.is_ok());
}

#[test]
fn into_inner_gives_the_stream_back() {
    let mut r = reader(3, 5);
    let mut buf = [0_u8; 2];
    r.read(&mut buf).unwrap();
    let cursor = r.into_inner();
    assert_eq!(cursor.position(), 5);
    assert_eq!(cursor.into_inner(), digits());
}

#[test]
fn peek_is_clamped_to_the_window() {
    let mut r = reader(3, 5);
    assert_eq!(r.fill_buf().unwrap(), &[3, 4, 5, 6, 7]);
    assert_eq!(r.stream_position().unwrap(), 0);
    r.consume(2);
    assert_eq!(r.stream_position().unwrap(), 2);
    assert_eq!(r.inner().position(), 5);
    assert_eq!(r.fill_buf().unwrap(), &[5, 6, 7]);
    r.consume(3);
    assert_eq!(r.fill_buf().unwrap(), &[] as &[u8]);
    assert_eq!(r.inner().position(), 8);
}

#[test]
fn peek_is_clamped_to_the_stream() {
    let mut r = reader(8, 5);
    assert_eq!(r.fill_buf().unwrap(), &[8, 9]);
    r.consume(2);
    assert_eq!(r.fill_buf().unwrap(), &[] as &[u8]);
}

#[test]
fn readers_nest() {
    let outer = reader(2, 6);
    let mut nested = SubReader::new_seek(outer, SeekFrom::Start(1), 3).unwrap();
    let mut out = Vec::new();
    assert_eq!(nested.read_to_end(&mut out).unwrap(), 3);
    assert_eq!(out, [3, 4, 5]);
    assert_eq!(nested.seek(SeekFrom::End(-1)).unwrap(), 2);
    assert_eq!(nested.inner().inner().position(), 5);
    assert_eq!(nested.seek(SeekFrom::Current(-3)), Err(Error::OutOfBounds));
    let failed = SubReader::new_seek(reader(2, 6), SeekFrom::End(-7), 3);
    assert_eq!(failed.err(), Some(Error::Inner(Error::OutOfBounds)));
}

#[test]
fn read_to_end_over_more_than_one_chunk() {
    let data: Vec<u8> = (0..=255).cycle().take(1000).collect();
    let mut r = SubReader::new_seek(Cursor::new(data.clone()), SeekFrom::Start(100), 700).unwrap();
    let mut out = Vec::new();
    assert_eq!(r.read_to_end(&mut out).unwrap(), 700);
    assert_eq!(out, &data[100..800]);
    assert_eq!(r.read_to_end(&mut out).unwrap(), 0);
    assert_eq!(out.len(), 700);
}

#[test]
fn consume_is_clamped_to_the_window() {
    let mut r = reader(3, 5);
    assert_eq!(r.fill_buf().unwrap(), &[3, 4, 5, 6, 7]);
    r.consume(100);
    assert_eq!(r.stream_position().unwrap(), 5);
    assert_eq!(r.inner_stream_position(), 8);
    assert_eq!(r.inner().position(), 8);
    r.consume(7);
    assert_eq!(r.stream_position().unwrap(), 5);
    assert_eq!(r.inner().position(), 8);
    assert_eq!(r.fill_buf().unwrap(), &[] as &[u8]);
}

#[test]
fn consume_of_less_than_is_left() {
    let mut r = reader(3, 5);
    r.consume(0);
    assert_eq!(r.stream_position().unwrap(), 0);
    r.consume(4);
    assert_eq!(r.stream_position().unwrap(), 4);
    assert_eq!(r.inner().position(), 7);
    r.consume(usize::MAX);
    assert_eq!(r.stream_position().unwrap(), 5);
    assert_eq!(r.inner().position(), 8);
}

#[test]
fn consume_past_the_end_of_the_stream() {
    let mut r = reader(8, 5);
    r.consume(4);
    assert_eq!(r.stream_position().unwrap(), 4);
    assert_eq!(r.inner_stream_position(), 12);
    assert_eq!(r.inner().position(), 12);
    let mut buf = [0_u8; 2];
    assert_eq!(r.read(&mut buf).unwrap(), 0);
}

#[test]
fn consume_after_a_seek_past_the_end() {
    let mut r = reader(3, 5);
    assert_eq!(r.seek(SeekFrom::End(3)).unwrap(), 8);
    r.consume(2);
    assert_eq!(r.stream_position().unwrap(), 8);
    assert_eq!(r.inner().position(), 11);
}

#[test]
fn reading_to_the_end_leaves_the_position_at_the_end() {
    let mut r = reader(3, 5);
    let mut out = Vec::new();
    assert_eq!(r.read_to_end(&mut out).unwrap(), 5);
    assert_eq!(r.inner_stream_position(), 8);
    assert_eq!(r.inner().position(), 8);
    assert_eq!(r.stream_position().unwrap(), 5);
    let mut buf = [0_u8; 1];
    assert_eq!(r.read(&mut buf).unwrap(), 0);
    let mut short = reader(8, 5);
    assert_eq!(short.read_to_end(&mut out).unwrap(), 2);
    assert_eq!(short.inner_stream_position(), 10);
    assert_eq!(out, [3, 4, 5, 6, 7, 8, 9]);
}

#[test]
fn a_short_read_keeps_the_rest_of_the_buffer() {
    let mut r = reader(8, 5);
    let mut buf = [0_u8; 10];
    assert_eq!(r.read(&mut buf).unwrap(), 2);
    assert_eq!(buf, [8, 9, 0, 0, 0, 0, 0, 0, 0, 0]);
    assert_eq!(r.stream_position().unwrap(), 2);
}
