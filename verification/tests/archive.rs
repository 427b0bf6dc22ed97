use std::io::{Cursor, Read};
use zip::ZipArchive;
use zipit::machine::{Action, Event};
use zipit::{Archive, FileDateTime};

/// Appends one member, reading `payload` at most `step` bytes at a time and
/// writing to the sink what the writer hands out.
fn append(
    archive: &mut Archive<Vec<u8>>,
    name: &str,
    datetime: FileDateTime,
    payload: &[u8],
    step: usize,
) {
    let mut rest = payload;
    let mut chunk: &[u8] = &[];
    let mut action = archive.append(Event::Start { name: name.to_owned(), datetime });
    loop {
        action = match action {
            Action::Write(bytes) => {
                archive.sink_mut().extend_from_slice(&bytes);
                archive.append(Event::Written)
            },
            Action::WriteData => {
                archive.sink_mut().extend_from_slice(chunk);
                archive.append(Event::Written)
            },
            Action::Read => {
                let n = step.min(rest.len());
                chunk = &rest[..n];
                rest = &rest[n..];
                archive.append(Event::Data(chunk))
            },
            Action::Done => return,
            Action::Refused => panic!("the writer refused an event of a regular append"),
        };
    }
}

/// Ends the archive and returns all its bytes.
fn finalize(archive: Archive<Vec<u8>>) -> Vec<u8> {
    let (mut sink, trailer) = archive.finalize();
    sink.extend_from_slice(&trailer);
    sink
}

/// The whole archive of the given members.
fn build(members: &[(&str, &[u8])], datetime: FileDateTime, step: usize) -> Vec<u8> {
    let mut archive = Archive::new(Vec::new());
    for (name, payload) in members {
        append(&mut archive, name, datetime, payload, step);
    }
    finalize(archive)
}

fn u16_at(data: &[u8], at: usize) -> u16 {
    u16::from_le_bytes([data[at], data[at + 1]])
}

fn u32_at(data: &[u8], at: usize) -> u32 {
    u32::from_le_bytes([data[at], data[at + 1], data[at + 2], data[at + 3]])
}

/// What a reader finds in an archive: each name with its content.
fn decode(data: &[u8]) -> Vec<(String, Vec<u8>)> {
    let mut reader = ZipArchive::new(Cursor::new(data.to_vec())).unwrap();
    let mut found = Vec::new();
    for i in 0..reader.len() {
        let mut file = reader.by_index(i).unwrap();
        let name = file.name().unwrap().into_owned();
        let mut content = Vec::new();
        file.read_to_end(&mut content).unwrap();
        found.push((name, content));
    }
    found
}

const TWO: [(&str, &[u8]); 2] = [("file1.txt", b"hello\n"), ("file2.txt", b"world\n")];

const THREE: [(&str, &[u8]); 3] =
    [("file1.txt", b"hello\n"), ("file2.txt", b"world\n"), ("file3.txt", b"how are you?\n")];

#[test]
fn archive_structure() {
    let data = build(&TWO, FileDateTime::now(), 4096);
    let timeless = build(&TWO, FileDateTime::Zero, 4096);

    fn match_except_datetime(a1: &[u8], a2: &[u8]) -> bool {
        let datetime_ranges = [
            10..12,
            12..14,
            71..73,
            73..75,
            134..136,
            136..138,
            189..191,
            191..193,
        ];
        let size_ranges = [18..22, 22..26, 79..83, 83..87];
        a1.len() == a2.len()
            && a1
                .into_iter()
                .zip(a2)
                .enumerate()
                .filter(|(i, _)| {
                    datetime_ranges.iter().chain(&size_ranges).all(|range| !range.contains(i))
                })
                .all(|(_, (b1, b2))| b1 == b2)
    }
    assert!(match_except_datetime(&data, &timeless));
    assert!(match_except_datetime(&data, &expected_two()));
    assert_eq!(timeless, expected_two());
}

/// The archive of `TWO` with the date and time `Zero`, byte by byte.
fn expected_two() -> Vec<u8> {
    let mut all: Vec<u8> = Vec::new();
    // file1.txt at offset 0
    all.extend_from_slice(&[0x50, 0x4b, 0x03, 0x04, 0x0a, 0x00, 0x08, 0x08, 0x00, 0x00]);
    all.extend_from_slice(&[0x00, 0x00, 0x21, 0x00]);
    all.extend_from_slice(&[0; 12]);
    all.extend_from_slice(&[0x09, 0x00, 0x00, 0x00]);
    all.extend_from_slice(b"file1.txt");
    all.extend_from_slice(b"hello\n");
    all.extend_from_slice(&[0x50, 0x4b, 0x07, 0x08, 0x20, 0x30, 0x3a, 0x36, 6, 0, 0, 0, 6, 0, 0, 0]);
    // file2.txt at offset 61
    all.extend_from_slice(&[0x50, 0x4b, 0x03, 0x04, 0x0a, 0x00, 0x08, 0x08, 0x00, 0x00]);
    all.extend_from_slice(&[0x00, 0x00, 0x21, 0x00]);
    all.extend_from_slice(&[0; 12]);
    all.extend_from_slice(&[0x09, 0x00, 0x00, 0x00]);
    all.extend_from_slice(b"file2.txt");
    all.extend_from_slice(b"world\n");
    all.extend_from_slice(&[0x50, 0x4b, 0x07, 0x08, 0xa8, 0x61, 0x38, 0xdd, 6, 0, 0, 0, 6, 0, 0, 0]);
    // central directory at offset 122
    for (name, crc, offset) in
        [(b"file1.txt", [0x20, 0x30, 0x3a, 0x36], 0u8), (b"file2.txt", [0xa8, 0x61, 0x38, 0xdd], 61)]
    {
        all.extend_from_slice(&[0x50, 0x4b, 0x01, 0x02, 0x1e, 0x03, 0x0a, 0x00, 0x08, 0x08]);
        all.extend_from_slice(&[0x00, 0x00, 0x00, 0x00, 0x21, 0x00]);
        all.extend_from_slice(&crc);
        all.extend_from_slice(&[6, 0, 0, 0, 6, 0, 0, 0, 0x09, 0x00]);
        all.extend_from_slice(&[0; 8]);
        all.extend_from_slice(&[0x00, 0x00, 0xa4, 0x81, offset, 0, 0, 0]);
        all.extend_from_slice(name);
    }
    all.extend_from_slice(&[0x50, 0x4b, 0x05, 0x06, 0, 0, 0, 0, 2, 0, 2, 0]);
    all.extend_from_slice(&[110, 0, 0, 0, 122, 0, 0, 0, 0, 0]);
    all
}

#[test]
fn the_size_is_the_length_of_the_archive() {
    let two = build(&TWO, FileDateTime::Zero, 4096);
    assert_eq!(two.len(), 254);
    assert_eq!(two.len(), zipit::archive_size(&[("file1.txt", 6), ("file2.txt", 6)]));
    let three = build(&THREE, FileDateTime::Zero, 4096);
    assert_eq!(three.len(), 377);
    assert_eq!(
        three.len(),
        zipit::archive_size(&[("file1.txt", 6), ("file2.txt", 6), ("file3.txt", 13)]),
    );
    let odd = build(&[("é", b""), ("", b"x"), ("long name.bin", &[7; 5000])], FileDateTime::Zero, 7);
    assert_eq!(odd.len(), zipit::archive_size(&[("é", 0), ("", 1), ("long name.bin", 5000)]));
}

#[test]
fn a_reader_finds_the_members() {
    for datetime in [
        FileDateTime::Zero,
        FileDateTime::now(),
        FileDateTime::Custom { year: 2021, month: 12, day: 25, hour: 13, minute: 37, second: 59 },
    ] {
        let found = decode(&build(&TWO, datetime, 4096));
        assert_eq!(
            found,
            vec![
                ("file1.txt".to_owned(), b"hello\n".to_vec()),
                ("file2.txt".to_owned(), b"world\n".to_vec()),
            ],
        );
    }
}

#[test]
fn a_reader_finds_the_date_and_time() {
    let datetime =
        FileDateTime::Custom { year: 2021, month: 12, day: 25, hour: 13, minute: 37, second: 59 };
    let data = build(&TWO, datetime, 4096);
    let mut reader = ZipArchive::new(Cursor::new(data)).unwrap();
    let file = reader.by_index(1).unwrap();
    let modified = file.last_modified().unwrap();
    assert_eq!(
        (modified.year(), modified.month(), modified.day()),
        (2021, 12, 25),
    );
    assert_eq!((modified.hour(), modified.minute(), modified.second()), (13, 37, 58));
    assert_eq!(file.crc32(), crc32fast::hash(b"world\n"));
    assert_eq!(file.size(), 6);
    assert_eq!(file.header_start(), 61);
    assert_eq!(file.unix_mode(), Some(0o100644));
}

#[test]
fn zero_is_stored_as_1980_01_01_at_midnight() {
    let data = build(&TWO, FileDateTime::Zero, 4096);
    // the time of both local file headers and of both directory entries
    for at in [10, 71, 134, 189] {
        assert_eq!(u16_at(&data, at), 0);
    }
    // the date of both local file headers and of both directory entries
    for at in [12, 73, 136, 191] {
        assert_eq!(u16_at(&data, at), 0x0021);
    }
}

#[test]
fn a_reader_finds_1980_01_01_at_midnight_for_zero() {
    let data = build(&TWO, FileDateTime::Zero, 4096);
    let mut reader = ZipArchive::new(Cursor::new(data)).unwrap();
    assert_eq!(reader.len(), 2);
    for i in 0..2 {
        let file = reader.by_index(i).unwrap();
        let modified = file.last_modified().unwrap();
        assert_eq!((modified.year(), modified.month(), modified.day()), (1980, 1, 1));
        assert_eq!((modified.hour(), modified.minute(), modified.second()), (0, 0, 0));
        assert_eq!(modified, zip::DateTime::default());
    }
}

#[test]
fn the_checksum_does_not_depend_on_the_chunks() {
    let payload: Vec<u8> = (0..10_000u32).map(|i| (i * 31 % 251) as u8).collect();
    let members: [(&str, &[u8]); 2] = [("numbers.bin", &payload), ("empty", b"")];
    let whole = build(&members, FileDateTime::Zero, usize::MAX);
    for step in [1, 2, 3, 16, 4096, 9_999, 10_000] {
        assert_eq!(build(&members, FileDateTime::Zero, step), whole);
    }
    let crc = crc32fast::hash(&payload);
    // The descriptor follows the header and the payload.
    let descriptor = 30 + 11 + payload.len();
    assert_eq!(u32_at(&whole, descriptor), 0x08074b50);
    assert_eq!(u32_at(&whole, descriptor + 4), crc);
    assert_eq!(u32_at(&whole, descriptor + 8), 10_000);
    assert_eq!(u32_at(&whole, descriptor + 12), 10_000);
    // The first directory entry follows the two members.
    let entry = descriptor + 16 + 30 + 5 + 16;
    assert_eq!(u32_at(&whole, entry), 0x02014b50);
    assert_eq!(u32_at(&whole, entry + 16), crc);
    assert_eq!(u32_at(&whole, entry + 20), 10_000);
    assert_eq!(u32_at(&whole, entry + 24), 10_000);
    // An empty payload has the checksum zero.
    assert_eq!(u32_at(&whole, descriptor + 16 + 30 + 5 + 4), 0);
    assert_eq!(decode(&whole)[0].1, payload);
}

#[test]
fn the_checksum_is_that_of_the_payload() {
    let data = build(&TWO, FileDateTime::Zero, 4);
    assert_eq!(crc32fast::hash(b"hello\n"), 0x363a3020);
    assert_eq!(u32_at(&data, 45 + 4), 0x363a3020);
    assert_eq!(u32_at(&data, 122 + 16), 0x363a3020);
    assert_eq!(u32_at(&data, 106 + 4), crc32fast::hash(b"world\n"));
    assert_eq!(u32_at(&data, 177 + 16), crc32fast::hash(b"world\n"));
}

#[test]
fn directory_entries_point_at_the_local_file_headers() {
    let members: [(&str, &[u8]); 4] =
        [("b", b"second first"), ("a", b""), ("a", b"same name again"), ("dir/c.txt", &[0; 300])];
    let data = build(&members, FileDateTime::Zero, 64);
    let end = data.len() - 22;
    assert_eq!(u32_at(&data, end), 0x06054b50);
    assert_eq!(u16_at(&data, end + 8), 4);
    assert_eq!(u16_at(&data, end + 10), 4);
    let directory = u32_at(&data, end + 16) as usize;
    assert_eq!(directory + u32_at(&data, end + 12) as usize, end);
    let mut entry = directory;
    let mut begins = 0;
    for (name, payload) in members {
        assert_eq!(u32_at(&data, entry), 0x02014b50);
        let offset = u32_at(&data, entry + 42) as usize;
        assert_eq!(offset, begins);
        assert_eq!(u32_at(&data, offset), 0x04034b50);
        assert_eq!(&data[offset + 30..offset + 30 + name.len()], name.as_bytes());
        assert_eq!(&data[entry + 46..entry + 46 + name.len()], name.as_bytes());
        begins += 30 + name.len() + payload.len() + 16;
        entry += 46 + name.len();
    }
    assert_eq!(begins, directory);
    assert_eq!(entry, end);
}

#[test]
fn an_archive_without_members_is_the_end_record() {
    let archive = Archive::new(Vec::<u8>::new());
    let (sink, trailer) = archive.finalize();
    assert!(sink.is_empty());
    assert_eq!(trailer, vec![0x50, 0x4b, 0x05, 0x06, 0, 0, 0, 0, 0, 0, 0, 0, 0, 0, 0, 0, 0, 0, 0, 0, 0, 0]);
    assert_eq!(trailer.len(), 22);
    assert_eq!(trailer.len(), zipit::archive_size(&[]));
    assert_eq!(decode(&trailer), vec![]);
}

#[test]
fn finalize_returns_the_sink() {
    let mut archive = Archive::new(vec![1u8, 2, 3]);
    archive.sink_mut().push(4);
    let (sink, _) = archive.finalize();
    assert_eq!(sink, vec![1, 2, 3, 4]);
}

#[test]
fn written_counts_the_confirmed_bytes() {
    let mut archive = Archive::new(Vec::<u8>::new());
    assert_eq!(archive.written(), 0);
    let header = match archive.append(Event::Start {
        name: "file1.txt".to_owned(),
        datetime: FileDateTime::Zero,
    }) {
        Action::Write(header) => header,
        _ => panic!("expected the local file header"),
    };
    assert_eq!(header.len(), 39);
    assert_eq!(archive.written(), 0);
    assert!(matches!(archive.append(Event::Written), Action::Read));
    assert_eq!(archive.written(), 39);
    assert!(matches!(archive.append(Event::Data(b"hel")), Action::WriteData));
    assert_eq!(archive.written(), 39);
    assert!(matches!(archive.append(Event::Written), Action::Read));
    assert_eq!(archive.written(), 42);
    assert!(matches!(archive.append(Event::Data(b"lo\n")), Action::WriteData));
    assert!(matches!(archive.append(Event::Written), Action::Read));
    assert_eq!(archive.written(), 45);
    let descriptor = match archive.append(Event::Data(b"")) {
        Action::Write(descriptor) => descriptor,
        _ => panic!("expected the data descriptor"),
    };
    assert_eq!(descriptor, vec![0x50, 0x4b, 0x07, 0x08, 0x20, 0x30, 0x3a, 0x36, 6, 0, 0, 0, 6, 0, 0, 0]);
    assert_eq!(archive.written(), 45);
    assert!(matches!(archive.append(Event::Written), Action::Done));
    assert_eq!(archive.written(), 61);
}

#[test]
fn events_out_of_turn_are_refused() {
    let mut archive = Archive::new(Vec::<u8>::new());
    assert!(matches!(archive.append(Event::Written), Action::Refused));
    assert!(matches!(archive.append(Event::Data(b"x")), Action::Refused));
    assert!(matches!(archive.append(Event::Data(b"")), Action::Refused));
    let start = || Event::Start { name: "a".to_owned(), datetime: FileDateTime::Zero };
    assert!(matches!(archive.append(start()), Action::Write(_)));
    assert!(matches!(archive.append(start()), Action::Refused));
    assert!(matches!(archive.append(Event::Data(b"x")), Action::Refused));
    assert!(matches!(archive.append(Event::Written), Action::Read));
    assert!(matches!(archive.append(Event::Written), Action::Refused));
    assert!(matches!(archive.append(start()), Action::Refused));
    assert!(matches!(archive.append(Event::Data(b"x")), Action::WriteData));
    assert!(matches!(archive.append(Event::Data(b"y")), Action::Refused));
    assert!(matches!(archive.append(start()), Action::Refused));
    assert!(matches!(archive.append(Event::Written), Action::Read));
    assert!(matches!(archive.append(Event::Data(b"")), Action::Write(_)));
    assert!(matches!(archive.append(Event::Data(b"")), Action::Refused));
    assert!(matches!(archive.append(start()), Action::Refused));
    assert!(matches!(archive.append(Event::Written), Action::Done));
    assert_eq!(archive.written(), 31 + 1 + 16);
    // The refused events left no trace: the archive is that of one member.
    let (_, trailer) = archive.finalize();
    assert_eq!(trailer.len(), 47 + 22);
    assert_eq!(trailer[42..46], [0, 0, 0, 0]);
    assert_eq!(trailer[47 + 8..47 + 12], [1, 0, 1, 0]);
    assert_eq!(u32_at(&trailer, 47 + 12), 47);
    assert_eq!(u32_at(&trailer, 47 + 16), 48);
}

#[test]
fn a_member_that_was_not_completed_is_not_on_record() {
    let mut archive = Archive::new(Vec::new());
    append(&mut archive, "whole", FileDateTime::Zero, b"payload", 3);
    let start = Event::Start { name: "broken".to_owned(), datetime: FileDateTime::Zero };
    let header = match archive.append(start) {
        Action::Write(header) => header,
        _ => panic!("expected the local file header"),
    };
    archive.sink_mut().extend_from_slice(&header);
    assert!(matches!(archive.append(Event::Written), Action::Read));
    assert!(matches!(archive.append(Event::Data(b"half")), Action::WriteData));
    // The write fails here, and the driver gives up.
    let written = archive.written();
    assert_eq!(written, 35 + 7 + 16 + 36);
    let (sink, trailer) = archive.finalize();
    assert_eq!(sink.len(), written);
    assert_eq!(trailer.len(), 46 + 5 + 22);
    assert_eq!(&trailer[46..51], b"whole");
    assert_eq!(trailer[51 + 8..51 + 12], [1, 0, 1, 0]);
    assert_eq!(u32_at(&trailer, 51 + 16) as usize, written);
}

#[test]
fn the_writer_does_not_touch_the_sink() {
    let mut archive = Archive::new(Vec::<u8>::new());
    let start = Event::Start { name: "a".to_owned(), datetime: FileDateTime::Zero };
    assert!(matches!(archive.append(start), Action::Write(_)));
    assert!(matches!(archive.append(Event::Written), Action::Read));
    assert!(matches!(archive.append(Event::Data(b"abc")), Action::WriteData));
    assert!(archive.sink_mut().is_empty());
}
