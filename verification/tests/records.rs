use zipit::bytes::{put_bytes, put_u16, put_u32, truncate16, truncate32};
use zipit::records::{
    central_directory_entry, data_descriptor, end_of_central_directory, local_file_header,
    CENTRAL_DIRECTORY_ENTRY_BASE_SIZE, DESCRIPTOR_SIZE, END_OF_CENTRAL_DIRECTORY_SIZE,
    FILE_HEADER_BASE_SIZE,
};

#[test]
fn fields_are_little_endian() {
    let mut buf = vec![0xaa];
    put_u16(&mut buf, 0x1234);
    put_u32(&mut buf, 0x04034b50);
    put_bytes(&mut buf, b"xy");
    assert_eq!(buf, vec![0xaa, 0x34, 0x12, 0x50, 0x4b, 0x03, 0x04, b'x', b'y']);
    let mut buf = Vec::new();
    put_u16(&mut buf, 0xffff);
    put_u16(&mut buf, 0x0100);
    put_u32(&mut buf, 0xffff_ffff);
    put_u32(&mut buf, 0x0100_0000);
    put_u32(&mut buf, 0x0001_0000);
    assert_eq!(buf, vec![0xff, 0xff, 0, 1, 0xff, 0xff, 0xff, 0xff, 0, 0, 0, 1, 0, 0, 1, 0]);
}

#[test]
fn counts_keep_their_low_bits() {
    assert_eq!(truncate16(0), 0);
    assert_eq!(truncate16(65535), 65535);
    assert_eq!(truncate16(65536), 0);
    assert_eq!(truncate16(65536 + 7), 7);
    assert_eq!(truncate32(0x1234_5678), 0x1234_5678);
    assert_eq!(truncate32(usize::MAX), u32::MAX);
    assert_eq!(truncate32(0x1_0000_0005u64 as usize), 5);
}

#[test]
fn local_file_header_layout() {
    let header = local_file_header("a.txt", 0x5399, 0x6cbd);
    let expected: Vec<u8> = vec![
        0x50, 0x4b, 0x03, 0x04, // signature
        0x0a, 0x00, // version needed
        0x08, 0x08, // flag: bit 3 and bit 11
        0x00, 0x00, // stored
        0xbd, 0x6c, // time
        0x99, 0x53, // date
        0, 0, 0, 0, // checksum, left to the descriptor
        0, 0, 0, 0, // compressed size, left to the descriptor
        0, 0, 0, 0, // uncompressed size, left to the descriptor
        0x05, 0x00, // name length
        0x00, 0x00, // extra length
        b'a', b'.', b't', b'x', b't',
    ];
    assert_eq!(header, expected);
    assert_eq!(header.len(), FILE_HEADER_BASE_SIZE + 5);
}

#[test]
fn data_descriptor_layout() {
    let descriptor = data_descriptor(0x363a3020, 6);
    let expected: Vec<u8> = vec![
        0x50, 0x4b, 0x07, 0x08, // signature
        0x20, 0x30, 0x3a, 0x36, // checksum
        6, 0, 0, 0, // compressed size
        6, 0, 0, 0, // uncompressed size
    ];
    assert_eq!(descriptor, expected);
    assert_eq!(descriptor.len(), DESCRIPTOR_SIZE);
}

#[test]
fn central_directory_entry_layout() {
    let entry = central_directory_entry("a.txt", 0x5399, 0x6cbd, 0x363a3020, 6, 0x0102);
    let expected: Vec<u8> = vec![
        0x50, 0x4b, 0x01, 0x02, // signature
        0x1e, 0x03, // version made by
        0x0a, 0x00, // version needed
        0x08, 0x08, // flag
        0x00, 0x00, // stored
        0xbd, 0x6c, // time
        0x99, 0x53, // date
        0x20, 0x30, 0x3a, 0x36, // checksum
        6, 0, 0, 0, // compressed size
        6, 0, 0, 0, // uncompressed size
        0x05, 0x00, // name length
        0x00, 0x00, // extra length
        0x00, 0x00, // comment length
        0x00, 0x00, // disk number
        0x00, 0x00, // internal attributes
        0x00, 0x00, 0xa4, 0x81, // external attributes: regular file, rw-r--r--
        0x02, 0x01, 0x00, 0x00, // offset of the local file header
        b'a', b'.', b't', b'x', b't',
    ];
    assert_eq!(entry, expected);
    assert_eq!(entry.len(), CENTRAL_DIRECTORY_ENTRY_BASE_SIZE + 5);
    assert_eq!(0x81a4_0000u32, (0o100000u32 | 0o400 | 0o200 | 0o040 | 0o004) << 16);
}

#[test]
fn end_of_central_directory_layout() {
    let end = end_of_central_directory(2, 110, 122);
    let expected: Vec<u8> = vec![
        0x50, 0x4b, 0x05, 0x06, // signature
        0x00, 0x00, // this disk
        0x00, 0x00, // disk of the central directory
        0x02, 0x00, // entries on this disk
        0x02, 0x00, // entries in all
        110, 0, 0, 0, // size of the central directory
        122, 0, 0, 0, // offset of the central directory
        0x00, 0x00, // comment length
    ];
    assert_eq!(end, expected);
    assert_eq!(end.len(), END_OF_CENTRAL_DIRECTORY_SIZE);
}

#[test]
fn record_lengths_are_those_of_the_format() {
    assert_eq!(FILE_HEADER_BASE_SIZE, 30);
    assert_eq!(DESCRIPTOR_SIZE, 16);
    assert_eq!(CENTRAL_DIRECTORY_ENTRY_BASE_SIZE, 46);
    assert_eq!(END_OF_CENTRAL_DIRECTORY_SIZE, 22);
    assert_eq!(local_file_header("", 0, 0).len(), 30);
    assert_eq!(central_directory_entry("", 0, 0, 0, 0, 0).len(), 46);
}

#[test]
fn names_are_written_as_utf8() {
    let header = local_file_header("é.txt", 0, 0);
    assert_eq!(header[26..28], [6, 0]);
    assert_eq!(&header[30..], "é.txt".as_bytes());
}

#[test]
fn a_name_too_long_for_its_field_is_written_whole() {
    let name = "n".repeat(65536 + 3);
    let header = local_file_header(&name, 0, 0);
    assert_eq!(header.len(), 30 + 65536 + 3);
    assert_eq!(header[26..28], [3, 0]);
    assert_eq!(&header[30..], name.as_bytes());
    let entry = central_directory_entry(&name, 0, 0, 0, 0, 0);
    assert_eq!(entry.len(), 46 + 65536 + 3);
    assert_eq!(entry[28..30], [3, 0]);
}

#[test]
fn counts_too_large_for_their_fields_keep_their_low_bits() {
    let descriptor = data_descriptor(0, usize::MAX);
    assert_eq!(descriptor[8..16], [0xff; 8]);
    let end = end_of_central_directory(65536 + 2, usize::MAX, usize::MAX);
    assert_eq!(end[8..12], [2, 0, 2, 0]);
    assert_eq!(end[12..20], [0xff; 8]);
    let entry = central_directory_entry("", 0, 0, 0, usize::MAX, usize::MAX);
    assert_eq!(entry[20..28], [0xff; 8]);
    assert_eq!(entry[42..46], [0xff; 4]);
}
