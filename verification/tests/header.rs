use gzip_header::error::{Error, FormatError, IoError};
use gzip_header::member::{CompressionMethod, Member, OperatingSystem};
use gzip_header::reader::Reader;

fn decode(bytes: Vec<u8>) -> (Result<Member, Error>, usize) {
    let mut r = Reader::new(bytes);
    let res = Member::from_reader(&mut r);
    (res, r.pos)
}

#[test]
fn fixed_header_no_flags() {
    let bytes = vec![
        0x1f, 0x8b, 0x08, 0x00, 0x04, 0x03, 0x02, 0x01, 0x07, 0x03, 0xaa, 0xbb, 0xcc,
    ];
    let (res, pos) = decode(bytes);
    let m = res.unwrap();
    assert_eq!(pos, 10);
    assert_eq!(m.magic1, 0x1f);
    assert_eq!(m.magic2, 0x8b);
    assert_eq!(m.compression_method, CompressionMethod::Deflate);
    assert_eq!(m.flags.bits, 0);
    assert_eq!(m.modification_time, 0x0102_0304);
    assert_eq!(m.extra_flags, 0x07);
    assert_eq!(m.operating_system, OperatingSystem::Unix);
    assert!(m.extra_fields.is_none());
    assert!(m.original_file_name.is_none());
    assert!(m.comment.is_none());
    assert!(m.crc16.is_none());
    assert!(m.data.is_empty());
    assert_eq!(m.crc32, 0);
    assert_eq!(m.size, 0);
}

#[test]
fn name_flag_reads_through_terminator() {
    let bytes = vec![
        0x1f, 0x8b, 0x08, 0x08, 0x00, 0x00, 0x00, 0x00, 0x00, 0x03, 0x66, 0x6f, 0x6f, 0x00,
    ];
    let (res, pos) = decode(bytes);
    let m = res.unwrap();
    assert_eq!(pos, 14);
    assert_eq!(m.compression_method, CompressionMethod::Deflate);
    assert!(m.flags.has_name());
    assert!(!m.flags.has_text());
    assert!(!m.flags.has_hcrc());
    assert!(!m.flags.has_extra());
    assert!(!m.flags.has_comment());
    assert_eq!(m.original_file_name.as_deref(), Some("foo"));
    assert!(m.extra_fields.is_none());
    assert!(m.comment.is_none());
    assert!(m.crc16.is_none());
}

#[test]
fn wrong_magic1_consumes_one_byte() {
    let bytes = vec![0x00, 0x8b, 0x08, 0x00, 0x00, 0x00, 0x00, 0x00, 0x00, 0x03];
    let (res, pos) = decode(bytes);
    assert_eq!(
        res.unwrap_err(),
        Error::Format(FormatError::InvalidMagic1(0x00))
    );
    assert_eq!(pos, 1);
}

#[test]
fn wrong_magic2_consumes_two_bytes() {
    let bytes = vec![0x1f, 0x99, 0x08, 0x00, 0x00, 0x00, 0x00, 0x00, 0x00, 0x03];
    let (res, pos) = decode(bytes);
    assert_eq!(
        res.unwrap_err(),
        Error::Format(FormatError::InvalidMagic2(0x99))
    );
    assert_eq!(pos, 2);
}

#[test]
fn unknown_method_and_os_are_not_errors() {
    let bytes = vec![0x1f, 0x8b, 0x09, 0x00, 0x00, 0x00, 0x00, 0x00, 0x00, 0x20];
    let (res, pos) = decode(bytes);
    let m = res.unwrap();
    assert_eq!(pos, 10);
    assert_eq!(m.compression_method, CompressionMethod::Unknown);
    assert_eq!(m.operating_system, OperatingSystem::Unknown);
}

#[test]
fn extra_field_exact_length() {
    let bytes = vec![
        0x1f, 0x8b, 0x08, 0x04, 0x00, 0x00, 0x00, 0x00, 0x00, 0x03, 0x41, 0x42, 0x03, 0x00, 0x01,
        0x02, 0x03, 0xee,
    ];
    let (res, pos) = decode(bytes);
    let m = res.unwrap();
    assert_eq!(pos, 17);
    let e = m.extra_fields.unwrap();
    assert_eq!(e.subid1, 0x41);
    assert_eq!(e.subid2, 0x42);
    assert_eq!(e.length, 3);
    assert_eq!(e.data, vec![0x01, 0x02, 0x03]);
    assert!(m.original_file_name.is_none());
}

#[test]
fn comment_and_checksum() {
    let bytes = vec![
        0x1f, 0x8b, 0x08, 0x12, 0x00, 0x00, 0x00, 0x00, 0x00, 0x03, 0x68, 0x69, 0x00, 0x34, 0x12,
    ];
    let (res, pos) = decode(bytes);
    let m = res.unwrap();
    assert_eq!(pos, 15);
    assert!(m.flags.has_comment());
    assert!(m.flags.has_hcrc());
    assert_eq!(m.comment.as_deref(), Some("hi"));
    assert_eq!(m.crc16, Some(0x1234));
    assert!(m.original_file_name.is_none());
    assert!(m.extra_fields.is_none());
}

#[test]
fn all_optional_fields_in_order() {
    let bytes = vec![
        0x1f, 0x8b, 0x08, 0x1e, 0x78, 0x56, 0x34, 0x12, 0x02, 0x0b, // fixed part
        0x4b, 0x4c, 0x02, 0x00, 0xde, 0xad, // extra: ids, len 2, payload
        0x61, 0x00, // name "a"
        0x62, 0x63, 0x00, // comment "bc"
        0xcd, 0xab, // header checksum
        0xff, 0xff, // payload left for downstream
    ];
    let (res, pos) = decode(bytes);
    let m = res.unwrap();
    assert_eq!(pos, 23);
    assert_eq!(m.modification_time, 0x1234_5678);
    assert_eq!(m.extra_flags, 0x02);
    assert_eq!(m.operating_system, OperatingSystem::Ntfs);
    let e = m.extra_fields.unwrap();
    assert_eq!((e.subid1, e.subid2, e.length), (0x4b, 0x4c, 2));
    assert_eq!(e.data, vec![0xde, 0xad]);
    assert_eq!(m.original_file_name.as_deref(), Some("a"));
    assert_eq!(m.comment.as_deref(), Some("bc"));
    assert_eq!(m.crc16, Some(0xabcd));
}

#[test]
fn opaque_flag_bits_are_preserved() {
    let bytes = vec![0x1f, 0x8b, 0x08, 0xe0, 0x00, 0x00, 0x00, 0x00, 0x00, 0x03];
    let (res, pos) = decode(bytes);
    let m = res.unwrap();
    assert_eq!(pos, 10);
    assert_eq!(m.flags.bits, 0xe0);
    assert!(!m.flags.has_text());
    assert!(!m.flags.has_hcrc());
    assert!(!m.flags.has_extra());
    assert!(!m.flags.has_name());
    assert!(!m.flags.has_comment());
}

#[test]
fn empty_input_is_a_transport_error() {
    let (res, pos) = decode(vec![]);
    assert_eq!(res.unwrap_err(), Error::Io(IoError::UnexpectedEof));
    assert_eq!(pos, 0);
}

#[test]
fn truncated_fixed_part_is_a_transport_error() {
    let bytes = vec![0x1f, 0x8b, 0x08, 0x00, 0x01, 0x02];
    let (res, pos) = decode(bytes);
    assert_eq!(res.unwrap_err(), Error::Io(IoError::UnexpectedEof));
    assert_eq!(pos, 6);
}

#[test]
fn unterminated_name_is_a_transport_error() {
    let bytes = vec![
        0x1f, 0x8b, 0x08, 0x08, 0x00, 0x00, 0x00, 0x00, 0x00, 0x03, 0x66, 0x6f, 0x6f,
    ];
    let (res, pos) = decode(bytes);
    assert_eq!(res.unwrap_err(), Error::Io(IoError::UnexpectedEof));
    assert_eq!(pos, 13);
}

#[test]
fn short_extra_payload_is_a_transport_error() {
    let bytes = vec![
        0x1f, 0x8b, 0x08, 0x04, 0x00, 0x00, 0x00, 0x00, 0x00, 0x03, 0x41, 0x42, 0x05, 0x00, 0x01,
        0x02,
    ];
    let (res, pos) = decode(bytes);
    assert_eq!(res.unwrap_err(), Error::Io(IoError::UnexpectedEof));
    assert_eq!(pos, 16);
}

#[test]
fn non_ascii_name_bytes_are_replaced_not_fatal() {
    let bytes = vec![
        0x1f, 0x8b, 0x08, 0x08, 0x00, 0x00, 0x00, 0x00, 0x00, 0x03, 0x66, 0xff, 0x00,
    ];
    let (res, pos) = decode(bytes);
    let m = res.unwrap();
    assert_eq!(pos, 13);
    assert_eq!(m.original_file_name.as_deref(), Some("f\u{fffd}"));
}

#[test]
fn method_byte_mapping() {
    assert_eq!(CompressionMethod::from_u8(0x00), CompressionMethod::Reserved0);
    assert_eq!(CompressionMethod::from_u8(0x07), CompressionMethod::Reserved7);
    assert_eq!(CompressionMethod::from_u8(0x08), CompressionMethod::Deflate);
    assert_eq!(CompressionMethod::from_u8(0x09), CompressionMethod::Unknown);
    assert_eq!(CompressionMethod::from_u8(0xff), CompressionMethod::Unknown);
}

#[test]
fn os_byte_mapping() {
    assert_eq!(OperatingSystem::from_u8(0x00), OperatingSystem::Fat);
    assert_eq!(OperatingSystem::from_u8(0x03), OperatingSystem::Unix);
    assert_eq!(OperatingSystem::from_u8(0x0d), OperatingSystem::AcornRiscOS);
    assert_eq!(OperatingSystem::from_u8(0x0e), OperatingSystem::Unknown);
    assert_eq!(OperatingSystem::from_u8(0xff), OperatingSystem::Unknown);
}

#[test]
fn round_trip_all_fields() {
    // Write a header by hand in wire order, decode it, and check that
    // every field comes back exactly.
    let mut bytes = vec![0x1f, 0x8b, 0x08, 0x1e];
    bytes.extend_from_slice(&[0xd2, 0x02, 0x96, 0x49]); // mtime 1234567890
    bytes.push(0x00);
    bytes.push(0x03);
    bytes.extend_from_slice(&[0x10, 0x20, 0x04, 0x00, 0x09, 0x08, 0x07, 0x06]);
    bytes.extend_from_slice(b"archive.tar\x00");
    bytes.extend_from_slice(b"weekly backup\x00");
    bytes.extend_from_slice(&[0x21, 0x43]);
    let header_len = bytes.len();
    bytes.extend_from_slice(&[0x55, 0x66]);
    let (res, pos) = decode(bytes);
    let m = res.unwrap();
    assert_eq!(pos, header_len);
    assert_eq!(m.modification_time, 1_234_567_890);
    let e = m.extra_fields.unwrap();
    assert_eq!((e.subid1, e.subid2, e.length), (0x10, 0x20, 4));
    assert_eq!(e.data, vec![0x09, 0x08, 0x07, 0x06]);
    assert_eq!(m.original_file_name.as_deref(), Some("archive.tar"));
    assert_eq!(m.comment.as_deref(), Some("weekly backup"));
    assert_eq!(m.crc16, Some(0x4321));
}
