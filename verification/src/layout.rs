//! The byte stream of a whole archive, as a function of its members.

use crate::crc::crc32;
use crate::bytes::{le32, low32};
use crate::records::{
    central_directory_entry_bytes, data_descriptor_bytes, end_of_central_directory_bytes,
    lemma_descriptor_fields, lemma_entry_fields, lemma_header_fields, lemma_record_lengths,
    local_file_header_bytes,
    CENTRAL_DIRECTORY_ENTRY_BASE_SIZE, DESCRIPTOR_SIZE, END_OF_CENTRAL_DIRECTORY_SIZE,
    FILE_HEADER_BASE_SIZE, LOCAL_FILE_HEADER_SIGNATURE,
};
use vstd::prelude::*;

verus! {

/// One member of an archive: what the caller gave for it, and every byte that
/// was read from its source.
pub struct Member {
    /// The name, in UTF-8.
    pub name: Seq<u8>,
    /// The packed date.
    pub date: u16,
    /// The packed time.
    pub time: u16,
    /// The payload, in read order.
    pub payload: Seq<u8>,
}

impl Member {
    /// The local file header that opens the member.
    pub open spec fn header(self) -> Seq<u8> {
        local_file_header_bytes(self.name, self.date, self.time)
    }

    /// The data descriptor that closes the member: the checksum of the whole
    /// payload, and its length.
    pub open spec fn descriptor(self) -> Seq<u8> {
        data_descriptor_bytes(crc32(self.payload), self.payload.len() as int)
    }

    /// The member as it stands in the stream: header, payload, descriptor.
    pub open spec fn bytes(self) -> Seq<u8> {
        self.header() + self.payload + self.descriptor()
    }

    /// The central directory entry of the member, for a local file header
    /// that begins at `offset`.
    pub open spec fn entry(self, offset: int) -> Seq<u8> {
        central_directory_entry_bytes(
            self.name,
            self.date,
            self.time,
            crc32(self.payload),
            self.payload.len() as int,
            offset,
        )
    }
}

/// The members one after the other, in the order in which they were appended.
pub open spec fn members_bytes(members: Seq<Member>) -> Seq<u8>
    decreases members.len(),
{
    if members.len() == 0 {
        Seq::empty()
    } else {
        members_bytes(members.drop_last()) + members.last().bytes()
    }
}

/// One plus the index of the stream's last byte that belongs to one of the
/// first `i` members: the place where member `i` begins.
pub open spec fn offset_of(members: Seq<Member>, i: int) -> int {
    members_bytes(members.take(i)).len() as int
}

/// The first `n` entries of the central directory, in the order of the
/// members.
pub open spec fn directory_bytes(members: Seq<Member>, n: int) -> Seq<u8>
    decreases n,
{
    if n <= 0 {
        Seq::empty()
    } else {
        directory_bytes(members, n - 1) + members[n - 1].entry(offset_of(members, n - 1))
    }
}

/// The place in the archive where the central directory entry of member `i`
/// begins: behind all the members and the entries of the members before it.
pub open spec fn entry_offset_of(members: Seq<Member>, i: int) -> int {
    (members_bytes(members).len() + directory_bytes(members, i).len()) as int
}

/// What ends an archive whose central directory begins at `start`: the
/// central directory and the end-of-central-directory record.
pub open spec fn trailer_bytes(members: Seq<Member>, start: int) -> Seq<u8> {
    let directory = directory_bytes(members, members.len() as int);
    directory + end_of_central_directory_bytes(
        members.len() as int,
        directory.len() as int,
        start,
    )
}

/// The whole archive.
pub open spec fn archive_bytes(members: Seq<Member>) -> Seq<u8> {
    members_bytes(members) + trailer_bytes(members, members_bytes(members).len() as int)
}

/// The length of the whole archive, counted record by record.
pub open spec fn archive_len(members: Seq<Member>) -> int
    decreases members.len(),
{
    if members.len() == 0 {
        END_OF_CENTRAL_DIRECTORY_SIZE as int
    } else {
        archive_len(members.drop_last()) + FILE_HEADER_BASE_SIZE + members.last().name.len()
            + members.last().payload.len() + DESCRIPTOR_SIZE + CENTRAL_DIRECTORY_ENTRY_BASE_SIZE
            + members.last().name.len()
    }
}

/// A member takes its header, its payload and its descriptor.
pub proof fn lemma_member_len(member: Member)
    ensures
        member.header().len() == FILE_HEADER_BASE_SIZE + member.name.len(),
        member.descriptor().len() == DESCRIPTOR_SIZE,
        member.bytes().len() == FILE_HEADER_BASE_SIZE + member.name.len() + member.payload.len()
            + DESCRIPTOR_SIZE,
        forall|offset: int| #[trigger]
            member.entry(offset).len() == CENTRAL_DIRECTORY_ENTRY_BASE_SIZE + member.name.len(),
{
    lemma_record_lengths(
        member.name,
        member.date,
        member.time,
        crc32(member.payload),
        member.payload.len() as int,
        0,
        0,
    );
    assert forall|offset: int| #[trigger]
        member.entry(offset).len() == CENTRAL_DIRECTORY_ENTRY_BASE_SIZE + member.name.len() by {
        lemma_record_lengths(
            member.name,
            member.date,
            member.time,
            crc32(member.payload),
            member.payload.len() as int,
            offset,
            0,
        );
    }
}

/// The stream of the first `i + 1` members is that of the first `i`, and then
/// member `i`.
pub proof fn lemma_members_bytes_step(members: Seq<Member>, i: int)
    requires
        0 <= i < members.len(),
    ensures
        members_bytes(members.take(i + 1)) == members_bytes(members.take(i)) + members[i].bytes(),
        offset_of(members, i + 1) == offset_of(members, i) + members[i].bytes().len(),
{
    let upto = members.take(i + 1);
    assert(upto.drop_last() =~= members.take(i));
    assert(upto.last() == members[i]);
}

/// The first `n` entries of the central directory depend on the first `n`
/// members only.
pub proof fn lemma_directory_of_prefix(members: Seq<Member>, k: int, n: int)
    requires
        0 <= n <= k <= members.len(),
    ensures
        directory_bytes(members.take(k), n) == directory_bytes(members, n),
    decreases n,
{
    if n > 0 {
        lemma_directory_of_prefix(members, k, n - 1);
        assert(members.take(k).take(n - 1) =~= members.take(n - 1));
    }
}

/// The whole archive has the length that its records add up to.
pub proof fn lemma_archive_len(members: Seq<Member>)
    ensures
        archive_bytes(members).len() == archive_len(members),
        members_bytes(members).len() + directory_bytes(members, members.len() as int).len()
            + END_OF_CENTRAL_DIRECTORY_SIZE == archive_len(members),
    decreases members.len(),
{
    let n = members.len() as int;
    lemma_record_lengths(
        Seq::empty(),
        0,
        0,
        0,
        directory_bytes(members, n).len() as int,
        members_bytes(members).len() as int,
        n,
    );
    if n > 0 {
        let front = members.drop_last();
        lemma_archive_len(front);
        lemma_member_len(members.last());
        assert(front =~= members.take(n - 1));
        lemma_directory_of_prefix(members, n - 1, n - 1);
    }
}

/// The stream of the first `i` members opens the stream of them all.
pub proof fn lemma_members_bytes_prefix(members: Seq<Member>, i: int)
    requires
        0 <= i <= members.len(),
    ensures
        offset_of(members, i) <= members_bytes(members).len(),
        members_bytes(members).take(offset_of(members, i)) == members_bytes(members.take(i)),
    decreases members.len() - i,
{
    if i == members.len() {
        assert(members.take(i) =~= members);
        assert(members_bytes(members).take(offset_of(members, i)) =~= members_bytes(members));
    } else {
        lemma_members_bytes_prefix(members, i + 1);
        lemma_members_bytes_step(members, i);
        assert(members_bytes(members).take(offset_of(members, i)) =~= members_bytes(
            members.take(i + 1),
        ).take(offset_of(members, i)));
        assert(members_bytes(members.take(i + 1)).take(offset_of(members, i)) =~= members_bytes(
            members.take(i),
        ));
    }
}

/// Member `i` stands in the archive from `offset_of(members, i)` on, local
/// file header first.
pub proof fn lemma_member_in_archive(members: Seq<Member>, i: int)
    requires
        0 <= i < members.len(),
    ensures
        ({
            let archive = archive_bytes(members);
            let at = offset_of(members, i);
            &&& 0 <= at
            &&& at + members[i].bytes().len() <= members_bytes(members).len()
            &&& archive.subrange(at, at + members[i].bytes().len()) == members[i].bytes()
            &&& archive.subrange(at, at + members[i].header().len()) == members[i].header()
        }),
{
    let archive = archive_bytes(members);
    let stream = members_bytes(members);
    let at = offset_of(members, i);
    let member = members[i];
    lemma_members_bytes_prefix(members, i + 1);
    lemma_members_bytes_step(members, i);
    lemma_member_len(member);
    let upto = members_bytes(members.take(i + 1));
    let end = at + member.bytes().len();
    assert(stream.subrange(at, end) =~= upto.subrange(at, end));
    assert(upto.subrange(at, end) =~= member.bytes());
    assert(archive.subrange(at, end) =~= stream.subrange(at, end));
    assert(archive.subrange(at, at + member.header().len()) =~= archive.subrange(at, end).subrange(
        0,
        member.header().len() as int,
    ));
    assert(member.bytes().subrange(0, member.header().len() as int) =~= member.header());
}

/// The central directory entry of member `i` stands in the archive behind
/// the members and the entries of the members before it.
pub proof fn lemma_entry_in_archive(members: Seq<Member>, i: int)
    requires
        0 <= i < members.len(),
    ensures
        ({
            let archive = archive_bytes(members);
            let entry_at = entry_offset_of(members, i);
            let entry = members[i].entry(offset_of(members, i));
            &&& entry_at + entry.len() <= archive.len()
            &&& archive.subrange(entry_at, entry_at + entry.len()) == entry
        }),
{
    let archive = archive_bytes(members);
    let stream = members_bytes(members);
    let n = members.len() as int;
    lemma_directory_prefix(members, i + 1, n);
    let directory = directory_bytes(members, n);
    let entry = members[i].entry(offset_of(members, i));
    let before = directory_bytes(members, i);
    let lo = before.len() as int;
    let hi = lo + entry.len();
    assert(directory_bytes(members, i + 1) == before + entry);
    assert(directory.subrange(lo, hi) =~= directory_bytes(members, i + 1).subrange(lo, hi));
    assert(directory.subrange(lo, hi) =~= entry);
    assert(archive.subrange(stream.len() + lo, stream.len() + hi) =~= directory.subrange(lo, hi));
}

/// Each member stands in the archive where its central directory entry says:
/// the bytes from `offset_of(members, i)` on are the local file header of
/// member `i`, and bytes 42 to 45 of the member's entry hold that offset, in
/// full as long as it fits in 32 bits.
pub proof fn lemma_entry_points_at_member(members: Seq<Member>, i: int)
    requires
        0 <= i < members.len(),
    ensures
        ({
            let archive = archive_bytes(members);
            let at = offset_of(members, i);
            let entry_at = entry_offset_of(members, i);
            &&& 0 <= at
            &&& at + members[i].header().len() <= archive.len()
            &&& archive.subrange(at, at + members[i].header().len()) == members[i].header()
            &&& archive.subrange(at, at + 4) == le32(LOCAL_FILE_HEADER_SIGNATURE)
            &&& entry_at + 46 <= archive.len()
            &&& archive.subrange(entry_at + 42, entry_at + 46) == le32(low32(at))
            &&& at <= u32::MAX ==> low32(at) == at
        }),
{
    let archive = archive_bytes(members);
    let member = members[i];
    let at = offset_of(members, i);
    let entry_at = entry_offset_of(members, i);
    let entry = member.entry(at);
    lemma_member_in_archive(members, i);
    lemma_entry_in_archive(members, i);
    lemma_member_len(member);
    lemma_entry_fields(
        member.name,
        member.date,
        member.time,
        crc32(member.payload),
        member.payload.len() as int,
        at,
    );
    assert(archive.subrange(entry_at + 42, entry_at + 46) =~= archive.subrange(
        entry_at,
        entry_at + entry.len(),
    ).subrange(42, 46));
    lemma_header_fields(member.name, member.date, member.time);
    assert(archive.subrange(at, at + 4) =~= archive.subrange(
        at,
        at + member.header().len(),
    ).subrange(0, 4));
}

/// Each member's checksum is on record twice, and both times it is the
/// CRC-32 of the member's whole payload: in the data descriptor behind the
/// payload, and in the member's central directory entry.
pub proof fn lemma_checksum_on_record(members: Seq<Member>, i: int)
    requires
        0 <= i < members.len(),
    ensures
        ({
            let archive = archive_bytes(members);
            let member = members[i];
            let descriptor_at = offset_of(members, i) + member.header().len()
                + member.payload.len();
            let entry_at = entry_offset_of(members, i);
            &&& descriptor_at + DESCRIPTOR_SIZE <= archive.len()
            &&& archive.subrange(descriptor_at, descriptor_at + DESCRIPTOR_SIZE)
                == member.descriptor()
            &&& archive.subrange(descriptor_at + 4, descriptor_at + 8) == le32(
                crc32(member.payload),
            )
            &&& entry_at + 20 <= archive.len()
            &&& archive.subrange(entry_at + 16, entry_at + 20) == le32(crc32(member.payload))
        }),
{
    let archive = archive_bytes(members);
    let member = members[i];
    let at = offset_of(members, i);
    let descriptor_at = at + member.header().len() + member.payload.len();
    let entry_at = entry_offset_of(members, i);
    lemma_member_in_archive(members, i);
    lemma_entry_in_archive(members, i);
    lemma_member_len(member);
    let whole = archive.subrange(at, at + member.bytes().len());
    assert(archive.subrange(descriptor_at, descriptor_at + DESCRIPTOR_SIZE) =~= whole.subrange(
        descriptor_at - at,
        descriptor_at - at + DESCRIPTOR_SIZE,
    ));
    assert(member.bytes().subrange(descriptor_at - at, descriptor_at - at + DESCRIPTOR_SIZE)
        =~= member.descriptor());
    lemma_descriptor_fields(crc32(member.payload), member.payload.len() as int);
    assert(archive.subrange(descriptor_at + 4, descriptor_at + 8) =~= member.descriptor().subrange(
        4,
        8,
    ));
    let entry = member.entry(at);
    lemma_entry_fields(
        member.name,
        member.date,
        member.time,
        crc32(member.payload),
        member.payload.len() as int,
        at,
    );
    assert(archive.subrange(entry_at + 16, entry_at + 20) =~= archive.subrange(
        entry_at,
        entry_at + entry.len(),
    ).subrange(16, 20));
}

/// The first `k` entries of the central directory open the first `n`.
pub proof fn lemma_directory_prefix(members: Seq<Member>, k: int, n: int)
    requires
        0 <= k <= n,
    ensures
        directory_bytes(members, k).len() <= directory_bytes(members, n).len(),
        directory_bytes(members, n).take(directory_bytes(members, k).len() as int)
            == directory_bytes(members, k),
    decreases n - k,
{
    if k == n {
        assert(directory_bytes(members, n).take(directory_bytes(members, n).len() as int)
            =~= directory_bytes(members, n));
    } else {
        lemma_directory_prefix(members, k, n - 1);
        assert(directory_bytes(members, n).take(directory_bytes(members, k).len() as int)
            =~= directory_bytes(members, n - 1).take(directory_bytes(members, k).len() as int));
    }
}

/// An archive without members is the end-of-central-directory record alone,
/// with no entries, an empty central directory and the offset zero.
pub proof fn lemma_empty_archive()
    ensures
        archive_bytes(Seq::empty()) == end_of_central_directory_bytes(0, 0, 0),
        archive_bytes(Seq::empty()).len() == END_OF_CENTRAL_DIRECTORY_SIZE,
{
    let none = Seq::<Member>::empty();
    assert(members_bytes(none) =~= Seq::<u8>::empty());
    assert(directory_bytes(none, 0) =~= Seq::<u8>::empty());
    assert(archive_bytes(none) =~= end_of_central_directory_bytes(0, 0, 0));
    lemma_record_lengths(Seq::empty(), 0, 0, 0, 0, 0, 0);
}

} // verus!
