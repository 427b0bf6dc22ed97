//! The four records of the format, each as a byte sequence and as the function
//! that builds it.
//!
//! All fields are little-endian. A count that does not fit its field keeps its
//! low bits only: nothing is validated.

use crate::bytes::{le16, le32, low16, low32, put_bytes, put_u16, put_u32, truncate16, truncate32};
use vstd::prelude::*;
use vstd::utf8::encode_utf8;

verus! {

/// Signature of a local file header.
pub const LOCAL_FILE_HEADER_SIGNATURE: u32 = 0x04034b50;

/// Signature of a data descriptor.
pub const DATA_DESCRIPTOR_SIGNATURE: u32 = 0x08074b50;

/// Signature of a central directory entry.
pub const CENTRAL_DIRECTORY_ENTRY_SIGNATURE: u32 = 0x02014b50;

/// Signature of the end-of-central-directory record.
pub const END_OF_CENTRAL_DIRECTORY_SIGNATURE: u32 = 0x06054b50;

/// Version made by: Unix, specification 3.0.
pub const VERSION_MADE_BY: u16 = 0x031e;

/// Version needed to extract: 1.0.
pub const VERSION_NEEDED: u16 = 10;

/// General purpose flag: bit 3, checksum and sizes follow the payload, and
/// bit 11, the name is UTF-8.
pub const GENERAL_PURPOSE_FLAG: u16 = 0x0808;

/// Compression method: stored.
pub const METHOD_STORED: u16 = 0;

/// External attributes: a regular file with mode `rw-r--r--`, in the high 16
/// bits.
pub const EXTERNAL_ATTRIBUTES: u32 = 0x81a4_0000;

/// Length of a local file header without the name.
pub const FILE_HEADER_BASE_SIZE: usize = 30;

/// Length of a data descriptor.
pub const DESCRIPTOR_SIZE: usize = 16;

/// Length of a central directory entry without the name.
pub const CENTRAL_DIRECTORY_ENTRY_BASE_SIZE: usize = 46;

/// Length of the end-of-central-directory record.
pub const END_OF_CENTRAL_DIRECTORY_SIZE: usize = 22;

/// The local file header of a member. Checksum and sizes are zero here and are
/// never patched: the flag sends the reader to the data descriptor.
#[verifier::opaque]
pub open spec fn local_file_header_bytes(name: Seq<u8>, date: u16, time: u16) -> Seq<u8> {
    le32(LOCAL_FILE_HEADER_SIGNATURE)
        + le16(VERSION_NEEDED)
        + le16(GENERAL_PURPOSE_FLAG)
        + le16(METHOD_STORED)
        + le16(time)
        + le16(date)
        + le32(0)
        + le32(0)
        + le32(0)
        + le16(low16(name.len() as int))
        + le16(0)
        + name
}

/// The data descriptor that follows a payload of `size` bytes with checksum
/// `crc`. The size stands twice, as nothing is compressed.
#[verifier::opaque]
pub open spec fn data_descriptor_bytes(crc: u32, size: int) -> Seq<u8> {
    le32(DATA_DESCRIPTOR_SIGNATURE)
        + le32(crc)
        + le32(low32(size))
        + le32(low32(size))
}

/// The central directory entry of a member whose local file header begins at
/// `offset`.
#[verifier::opaque]
pub open spec fn central_directory_entry_bytes(
    name: Seq<u8>,
    date: u16,
    time: u16,
    crc: u32,
    size: int,
    offset: int,
) -> Seq<u8> {
    le32(CENTRAL_DIRECTORY_ENTRY_SIGNATURE)
        + le16(VERSION_MADE_BY)
        + le16(VERSION_NEEDED)
        + le16(GENERAL_PURPOSE_FLAG)
        + le16(METHOD_STORED)
        + le16(time)
        + le16(date)
        + le32(crc)
        + le32(low32(size))
        + le32(low32(size))
        + le16(low16(name.len() as int))
        + le16(0)
        + le16(0)
        + le16(0)
        + le16(0)
        + le32(EXTERNAL_ATTRIBUTES)
        + le32(low32(offset))
        + name
}

/// The end-of-central-directory record of an archive with `entries` members
/// whose central directory has `directory_size` bytes and begins at
/// `directory_offset`.
#[verifier::opaque]
pub open spec fn end_of_central_directory_bytes(
    entries: int,
    directory_size: int,
    directory_offset: int,
) -> Seq<u8> {
    le32(END_OF_CENTRAL_DIRECTORY_SIGNATURE)
        + le16(0)
        + le16(0)
        + le16(low16(entries))
        + le16(low16(entries))
        + le32(low32(directory_size))
        + le32(low32(directory_offset))
        + le16(0)
}

/// Builds the local file header of a member.
pub fn local_file_header(name: &str, date: u16, time: u16) -> (header: Vec<u8>)
    ensures
        header@ == local_file_header_bytes(encode_utf8(name@), date, time),
        header@.len() == FILE_HEADER_BASE_SIZE + encode_utf8(name@).len(),
{
    reveal(local_file_header_bytes);
    let name = name.as_bytes();
    let mut header: Vec<u8> = Vec::new();
    put_u32(&mut header, LOCAL_FILE_HEADER_SIGNATURE);
    assert(header@ =~= le32(LOCAL_FILE_HEADER_SIGNATURE));
    put_u16(&mut header, VERSION_NEEDED);
    put_u16(&mut header, GENERAL_PURPOSE_FLAG);
    put_u16(&mut header, METHOD_STORED);
    put_u16(&mut header, time);
    put_u16(&mut header, date);
    put_u32(&mut header, 0);
    put_u32(&mut header, 0);
    put_u32(&mut header, 0);
    put_u16(&mut header, truncate16(name.len()));
    put_u16(&mut header, 0);
    put_bytes(&mut header, name);
    header
}

/// Builds the data descriptor of a payload.
pub fn data_descriptor(crc: u32, size: usize) -> (descriptor: Vec<u8>)
    ensures
        descriptor@ == data_descriptor_bytes(crc, size as int),
        descriptor@.len() == DESCRIPTOR_SIZE,
{
    reveal(data_descriptor_bytes);
    let mut descriptor: Vec<u8> = Vec::new();
    put_u32(&mut descriptor, DATA_DESCRIPTOR_SIGNATURE);
    assert(descriptor@ =~= le32(DATA_DESCRIPTOR_SIGNATURE));
    put_u32(&mut descriptor, crc);
    put_u32(&mut descriptor, truncate32(size));
    put_u32(&mut descriptor, truncate32(size));
    descriptor
}

/// Builds the central directory entry of a member.
pub fn central_directory_entry(
    name: &str,
    date: u16,
    time: u16,
    crc: u32,
    size: usize,
    offset: usize,
) -> (entry: Vec<u8>)
    ensures
        entry@ == central_directory_entry_bytes(
            encode_utf8(name@),
            date,
            time,
            crc,
            size as int,
            offset as int,
        ),
        entry@.len() == CENTRAL_DIRECTORY_ENTRY_BASE_SIZE + encode_utf8(name@).len(),
{
    reveal(central_directory_entry_bytes);
    let name = name.as_bytes();
    let mut entry: Vec<u8> = Vec::new();
    put_u32(&mut entry, CENTRAL_DIRECTORY_ENTRY_SIGNATURE);
    assert(entry@ =~= le32(CENTRAL_DIRECTORY_ENTRY_SIGNATURE));
    put_u16(&mut entry, VERSION_MADE_BY);
    put_u16(&mut entry, VERSION_NEEDED);
    put_u16(&mut entry, GENERAL_PURPOSE_FLAG);
    put_u16(&mut entry, METHOD_STORED);
    put_u16(&mut entry, time);
    put_u16(&mut entry, date);
    put_u32(&mut entry, crc);
    put_u32(&mut entry, truncate32(size));
    put_u32(&mut entry, truncate32(size));
    put_u16(&mut entry, truncate16(name.len()));
    put_u16(&mut entry, 0);
    put_u16(&mut entry, 0);
    put_u16(&mut entry, 0);
    put_u16(&mut entry, 0);
    put_u32(&mut entry, EXTERNAL_ATTRIBUTES);
    put_u32(&mut entry, truncate32(offset));
    put_bytes(&mut entry, name);
    entry
}

/// Builds the end-of-central-directory record.
pub fn end_of_central_directory(
    entries: usize,
    directory_size: usize,
    directory_offset: usize,
) -> (end: Vec<u8>)
    ensures
        end@ == end_of_central_directory_bytes(
            entries as int,
            directory_size as int,
            directory_offset as int,
        ),
        end@.len() == END_OF_CENTRAL_DIRECTORY_SIZE,
{
    reveal(end_of_central_directory_bytes);
    let mut end: Vec<u8> = Vec::new();
    put_u32(&mut end, END_OF_CENTRAL_DIRECTORY_SIGNATURE);
    assert(end@ =~= le32(END_OF_CENTRAL_DIRECTORY_SIGNATURE));
    put_u16(&mut end, 0);
    put_u16(&mut end, 0);
    put_u16(&mut end, truncate16(entries));
    put_u16(&mut end, truncate16(entries));
    put_u32(&mut end, truncate32(directory_size));
    put_u32(&mut end, truncate32(directory_offset));
    put_u16(&mut end, 0);
    end
}

/// The lengths of the four records: a fixed part, and the name where the
/// record carries one.
pub proof fn lemma_record_lengths(
    name: Seq<u8>,
    date: u16,
    time: u16,
    crc: u32,
    size: int,
    offset: int,
    entries: int,
)
    ensures
        local_file_header_bytes(name, date, time).len() == FILE_HEADER_BASE_SIZE + name.len(),
        data_descriptor_bytes(crc, size).len() == DESCRIPTOR_SIZE,
        central_directory_entry_bytes(name, date, time, crc, size, offset).len()
            == CENTRAL_DIRECTORY_ENTRY_BASE_SIZE + name.len(),
        end_of_central_directory_bytes(entries, size, offset).len()
            == END_OF_CENTRAL_DIRECTORY_SIZE,
{
    reveal(local_file_header_bytes);
    reveal(data_descriptor_bytes);
    reveal(central_directory_entry_bytes);
    reveal(end_of_central_directory_bytes);
}

/// Where a data descriptor keeps what it says of the payload: the checksum
/// in bytes 4 to 7, the size in bytes 8 to 11 and again in bytes 12 to 15.
pub proof fn lemma_descriptor_fields(crc: u32, size: int)
    ensures
        data_descriptor_bytes(crc, size).subrange(0, 4) == le32(DATA_DESCRIPTOR_SIGNATURE),
        data_descriptor_bytes(crc, size).subrange(4, 8) == le32(crc),
        data_descriptor_bytes(crc, size).subrange(8, 12) == le32(low32(size)),
        data_descriptor_bytes(crc, size).subrange(12, 16) == le32(low32(size)),
{
    reveal(data_descriptor_bytes);
    let d = data_descriptor_bytes(crc, size);
    assert(d.subrange(0, 4) =~= le32(DATA_DESCRIPTOR_SIGNATURE));
    assert(d.subrange(4, 8) =~= le32(crc));
    assert(d.subrange(8, 12) =~= le32(low32(size)));
    assert(d.subrange(12, 16) =~= le32(low32(size)));
}

/// Where a central directory entry keeps what it says of its member: the
/// checksum in bytes 16 to 19, the size in bytes 20 to 23 and again in bytes
/// 24 to 27, the offset of the local file header in bytes 42 to 45, and the
/// name from byte 46 on.
pub proof fn lemma_entry_fields(
    name: Seq<u8>,
    date: u16,
    time: u16,
    crc: u32,
    size: int,
    offset: int,
)
    ensures
        ({
            let entry = central_directory_entry_bytes(name, date, time, crc, size, offset);
            &&& entry.len() == CENTRAL_DIRECTORY_ENTRY_BASE_SIZE + name.len()
            &&& entry.subrange(0, 4) == le32(CENTRAL_DIRECTORY_ENTRY_SIGNATURE)
            &&& entry.subrange(16, 20) == le32(crc)
            &&& entry.subrange(20, 24) == le32(low32(size))
            &&& entry.subrange(24, 28) == le32(low32(size))
            &&& entry.subrange(42, 46) == le32(low32(offset))
            &&& entry.subrange(46, entry.len() as int) == name
        }),
{
    reveal(central_directory_entry_bytes);
    let entry = central_directory_entry_bytes(name, date, time, crc, size, offset);
    assert(entry.subrange(0, 4) =~= le32(CENTRAL_DIRECTORY_ENTRY_SIGNATURE));
    assert(entry.subrange(16, 20) =~= le32(crc));
    assert(entry.subrange(20, 24) =~= le32(low32(size)));
    assert(entry.subrange(24, 28) =~= le32(low32(size)));
    assert(entry.subrange(42, 46) =~= le32(low32(offset)));
    assert(entry.subrange(46, entry.len() as int) =~= name);
}

/// Where a local file header keeps its signature and the name: in bytes 0 to
/// 3, and from byte 30 on.
pub proof fn lemma_header_fields(name: Seq<u8>, date: u16, time: u16)
    ensures
        ({
            let header = local_file_header_bytes(name, date, time);
            &&& header.len() == FILE_HEADER_BASE_SIZE + name.len()
            &&& header.subrange(0, 4) == le32(LOCAL_FILE_HEADER_SIGNATURE)
            &&& header.subrange(30, header.len() as int) == name
        }),
{
    reveal(local_file_header_bytes);
    let header = local_file_header_bytes(name, date, time);
    assert(header.subrange(0, 4) =~= le32(LOCAL_FILE_HEADER_SIGNATURE));
    assert(header.subrange(30, header.len() as int) =~= name);
}

} // verus!
