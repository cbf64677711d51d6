use gzip_header::error::{Error, IoError};
use gzip_header::reader::{read_to_vec, Reader};

#[test]
fn read_u8_consumes_in_order() {
    let mut r = Reader::new(vec![0x0a, 0x0b]);
    assert_eq!(r.read_u8().unwrap(), 0x0a);
    assert_eq!(r.read_u8().unwrap(), 0x0b);
    assert_eq!(r.read_u8().unwrap_err(), Error::Io(IoError::UnexpectedEof));
    assert_eq!(r.pos, 2);
}

#[test]
fn read_u16_le_is_little_endian() {
    let mut r = Reader::new(vec![0x34, 0x12]);
    assert_eq!(r.read_u16_le().unwrap(), 0x1234);
    assert_eq!(r.pos, 2);
}

#[test]
fn read_u32_le_is_little_endian() {
    let mut r = Reader::new(vec![0x78, 0x56, 0x34, 0x12]);
    assert_eq!(r.read_u32_le().unwrap(), 0x1234_5678);
    assert_eq!(r.pos, 4);
}

#[test]
fn read_u32_le_short_input_consumes_all() {
    let mut r = Reader::new(vec![0x78, 0x56, 0x34]);
    assert_eq!(r.read_u32_le().unwrap_err(), Error::Io(IoError::UnexpectedEof));
    assert_eq!(r.pos, 3);
}

#[test]
fn read_to_vec_exact_bytes() {
    let mut r = Reader::new(vec![1, 2, 3, 4, 5]);
    assert_eq!(read_to_vec(&mut r, 3).unwrap(), vec![1, 2, 3]);
    assert_eq!(r.pos, 3);
}

#[test]
fn read_to_vec_zero_length() {
    let mut r = Reader::new(vec![9]);
    assert_eq!(read_to_vec(&mut r, 0).unwrap(), Vec::<u8>::new());
    assert_eq!(r.pos, 0);
}

#[test]
fn read_to_vec_short_input_fails() {
    let mut r = Reader::new(vec![1, 2]);
    assert_eq!(
        read_to_vec(&mut r, 3).unwrap_err(),
        Error::Io(IoError::UnexpectedEof)
    );
    assert_eq!(r.pos, 2);
}

#[test]
fn read_until_zero_stops_at_first_zero() {
    let mut r = Reader::new(vec![0x61, 0x62, 0x00, 0x63]);
    assert_eq!(r.read_until_zero().unwrap(), vec![0x61, 0x62]);
    assert_eq!(r.pos, 3);
    assert_eq!(r.read_u8().unwrap(), 0x63);
}

#[test]
fn read_until_zero_empty_string() {
    let mut r = Reader::new(vec![0x00, 0x7f]);
    assert_eq!(r.read_until_zero().unwrap(), Vec::<u8>::new());
    assert_eq!(r.pos, 1);
}

#[test]
fn read_until_zero_without_terminator_fails() {
    let mut r = Reader::new(vec![0x61, 0x62]);
    assert_eq!(
        r.read_until_zero().unwrap_err(),
        Error::Io(IoError::UnexpectedEof)
    );
    assert_eq!(r.pos, 2);
}
