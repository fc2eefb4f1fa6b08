use classvm::source::{copy_bytes, ByteStream};

#[test]
fn from_starts_at_the_first_byte() {
    let s = ByteStream::from(vec![7u8, 8, 9]);
    assert_eq!(s.i, 0);
    assert_eq!(s.v, vec![7u8, 8, 9]);
}

#[test]
fn next_reads_bytes_in_order_and_stops_at_the_end() {
    let mut s = ByteStream::from(vec![0xabu8, 0xcd]);
    assert_eq!(s.next(), Some(0xab));
    assert_eq!(s.i, 1);
    assert_eq!(s.next(), Some(0xcd));
    assert_eq!(s.i, 2);
    assert_eq!(s.next(), None);
    assert_eq!(s.i, 2);
    assert_eq!(s.next(), None);
}

#[test]
fn next_on_an_empty_buffer_fails() {
    let mut s = ByteStream::from(Vec::new());
    assert_eq!(s.next(), None);
    assert_eq!(s.next_u1(), None);
    assert_eq!(s.next_u2(), None);
    assert_eq!(s.next_u4(), None);
    assert_eq!(s.i, 0);
}

#[test]
fn next_u1_is_one_byte() {
    let mut s = ByteStream::from(vec![0xffu8, 0x01]);
    assert_eq!(s.next_u1(), Some(0xff));
    assert_eq!(s.next_u1(), Some(0x01));
    assert_eq!(s.next_u1(), None);
}

#[test]
fn next_u2_is_big_endian() {
    let mut s = ByteStream::from(vec![0x12u8, 0x34, 0xff, 0xff, 0x00]);
    assert_eq!(s.next_u2(), Some(0x1234));
    assert_eq!(s.i, 2);
    assert_eq!(s.next_u2(), Some(0xffff));
    assert_eq!(s.i, 4);
    assert_eq!(s.next_u2(), None);
    assert_eq!(s.i, 5);
}

#[test]
fn next_u4_is_big_endian() {
    let mut s = ByteStream::from(vec![0xcau8, 0xfe, 0xba, 0xbe, 0x00, 0x00, 0x01, 0x00]);
    assert_eq!(s.next_u4(), Some(0xcafebabe));
    assert_eq!(s.i, 4);
    assert_eq!(s.next_u4(), Some(256));
    assert_eq!(s.i, 8);
    assert_eq!(s.next_u4(), None);
    assert_eq!(s.i, 8);
}

#[test]
fn next_u4_consumes_what_is_left_when_it_fails() {
    let mut s = ByteStream::from(vec![1u8, 2, 3]);
    assert_eq!(s.next_u4(), None);
    assert_eq!(s.i, 3);
    assert_eq!(s.next(), None);
}

#[test]
fn read_fields_report_the_end_of_data() {
    let mut s = ByteStream::from(vec![1u8, 2, 3]);
    assert_eq!(s.read_u1(), Ok(1));
    assert_eq!(s.read_u2(), Ok(0x0203));
    assert_eq!(s.read_u1(), Err(classvm::error::DecodeError::EndOfData));
    assert_eq!(s.read_u2(), Err(classvm::error::DecodeError::EndOfData));
    assert_eq!(s.read_u4(), Err(classvm::error::DecodeError::EndOfData));
    let mut t = ByteStream::from(vec![0u8, 0, 1, 2]);
    assert_eq!(t.read_u4(), Ok(258));
}

#[test]
fn advance_by_moves_forwards_and_backwards() {
    let mut s = ByteStream::from(vec![10u8, 11, 12, 13, 14]);
    assert_eq!(s.advance_by(3), Some(()));
    assert_eq!(s.i, 3);
    assert_eq!(s.next(), Some(13));
    assert_eq!(s.advance_by(-4), Some(()));
    assert_eq!(s.i, 0);
    assert_eq!(s.next(), Some(10));
    assert_eq!(s.advance_by(0), Some(()));
    assert_eq!(s.i, 1);
}

#[test]
fn advance_by_fails_before_the_first_byte() {
    let mut s = ByteStream::from(vec![10u8, 11, 12]);
    assert_eq!(s.advance_by(2), Some(()));
    assert_eq!(s.advance_by(-3), None);
    assert_eq!(s.i, 2);
    assert_eq!(s.advance_by(isize::MIN), None);
    assert_eq!(s.i, 2);
    assert_eq!(s.advance_by(-2), Some(()));
    assert_eq!(s.i, 0);
}

#[test]
fn advance_by_fails_at_and_behind_the_end() {
    let mut s = ByteStream::from(vec![10u8, 11, 12]);
    assert_eq!(s.advance_by(3), None);
    assert_eq!(s.i, 0);
    assert_eq!(s.advance_by(isize::MAX), None);
    assert_eq!(s.i, 0);
    assert_eq!(s.advance_by(2), Some(()));
    assert_eq!(s.advance_by(1), None);
    assert_eq!(s.i, 2);
}

#[test]
fn advance_by_can_come_back_from_the_end() {
    let mut s = ByteStream::from(vec![10u8, 11]);
    assert_eq!(s.next_u2(), Some(0x0a0b));
    assert_eq!(s.i, 2);
    assert_eq!(s.advance_by(0), None);
    assert_eq!(s.advance_by(-1), Some(()));
    assert_eq!(s.next(), Some(11));
}

#[test]
fn copy_bytes_copies() {
    let v = vec![1u8, 2, 3];
    assert_eq!(copy_bytes(&v), v);
    assert_eq!(copy_bytes(&Vec::new()), Vec::<u8>::new());
}
