//! The archive writer.

use crate::bytes::put_bytes;
use crate::crc::{crc32, hasher_input};
use crate::layout::{directory_bytes, lemma_member_len, members_bytes, offset_of, Member};
use crate::machine::{Action, Event, Progress, State};
use crate::records::{
    central_directory_entry, data_descriptor, end_of_central_directory, local_file_header,
    DESCRIPTOR_SIZE, FILE_HEADER_BASE_SIZE,
};
use vstd::prelude::*;
use vstd::utf8::encode_utf8;

verus! {

/// What the writer keeps of a complete member.
struct FileInfo {
    name: String,
    size: usize,
    crc: u32,
    offset: usize,
    datetime: (u16, u16),
}

/// What the writer keeps of the member that is being appended.
struct Open {
    name: String,
    date: u16,
    time: u16,
    offset: usize,
    size: usize,
    hasher: crc32fast::Hasher,
}

/// Where the writer stands.
enum Stage {
    /// Between two appends.
    Idle,
    /// The local file header is being written.
    Header(Open),
    /// The source is being read.
    Reading(Open),
    /// This many bytes, the last that the hasher took, are being written.
    Chunk(Open, usize),
    /// The data descriptor of this member and payload is being written.
    Descriptor(FileInfo, Ghost<Seq<u8>>),
}

/// A streamed zip archive.
///
/// The writer owns the sink but never touches it: it says what is to be
/// written, and its driver writes. Create one with `new`, append the members
/// one by one by reporting events to `append`, then call `finalize` and write
/// what it returns.
pub struct Archive<W> {
    sink: W,
    books: Books,
}

/// The books of a writer: all that it keeps but the sink. They are in order
/// wherever they exist.
struct Books {
    files_info: Vec<FileInfo>,
    written: usize,
    payloads: Ghost<Seq<Seq<u8>>>,
    stage: Stage,
}

impl FileInfo {
    spec fn member(self, payload: Seq<u8>) -> Member {
        Member {
            name: encode_utf8(self.name@),
            date: self.datetime.0,
            time: self.datetime.1,
            payload,
        }
    }

    /// The record says of the payload what the payload is.
    spec fn describes(self, payload: Seq<u8>) -> bool {
        &&& self.size == payload.len()
        &&& self.crc == crc32(payload)
    }
}

impl Open {
    spec fn member(self, payload: Seq<u8>) -> Member {
        Member { name: encode_utf8(self.name@), date: self.date, time: self.time, payload }
    }

    /// The bytes that the hasher has taken.
    spec fn taken(self) -> Seq<u8> {
        hasher_input(self.hasher)
    }
}

impl Stage {
    spec fn progress(self) -> Progress {
        match self {
            Stage::Idle => Progress::Idle,
            Stage::Header(open) => Progress::Header { member: open.member(Seq::empty()) },
            Stage::Reading(open) => Progress::Reading { member: open.member(open.taken()) },
            Stage::Chunk(open, n) => Progress::Chunk {
                member: open.member(open.taken().take(open.taken().len() - n)),
                chunk: open.taken().skip(open.taken().len() - n),
            },
            Stage::Descriptor(info, payload) => Progress::Descriptor {
                member: info.member(payload@),
            },
        }
    }

    /// The bookkeeping of the member under way agrees with what the hasher
    /// took, and the member begins at `start`.
    spec fn wf(self, start: int) -> bool {
        match self {
            Stage::Idle => true,
            Stage::Header(open) => open.taken().len() == 0 && open.size == 0 && open.offset
                == start,
            Stage::Reading(open) => open.taken().len() == open.size && open.offset == start,
            Stage::Chunk(open, n) => 0 < n <= open.size && open.taken().len() == open.size
                && open.offset == start,
            Stage::Descriptor(info, payload) => info.describes(payload@) && info.offset == start,
        }
    }
}

/// The members that the records and their payloads stand for.
spec fn members_of(infos: Seq<FileInfo>, payloads: Seq<Seq<u8>>) -> Seq<Member> {
    Seq::new(infos.len(), |i: int| infos[i].member(payloads[i]))
}

/// The state that the books stand for.
spec fn state_of(infos: Seq<FileInfo>, payloads: Seq<Seq<u8>>, stage: Stage) -> State {
    State { members: members_of(infos, payloads), progress: stage.progress() }
}

/// The books are in order: every record has the size and the checksum of its
/// member's payload and the place where its member begins, and the count of
/// written bytes is the length of the stream.
spec fn in_order(
    infos: Seq<FileInfo>,
    payloads: Seq<Seq<u8>>,
    written: usize,
    stage: Stage,
) -> bool {
    let state = state_of(infos, payloads, stage);
    &&& payloads.len() == infos.len()
    &&& forall|i: int|
        0 <= i < infos.len() ==> {
            &&& (#[trigger] infos[i]).describes(payloads[i])
            &&& infos[i].offset == offset_of(state.members, i)
        }
    &&& stage.wf(members_bytes(state.members).len() as int)
    &&& written == state.emitted().len()
    &&& state.inv()
}

/// One more record with its payload is one more member, behind the others.
proof fn lemma_members_of_push(
    infos: Seq<FileInfo>,
    payloads: Seq<Seq<u8>>,
    info: FileInfo,
    payload: Seq<u8>,
)
    requires
        infos.len() == payloads.len(),
    ensures
        members_of(infos.push(info), payloads.push(payload)) == members_of(infos, payloads).push(
            info.member(payload),
        ),
{
    assert(members_of(infos.push(info), payloads.push(payload)) =~= members_of(
        infos,
        payloads,
    ).push(info.member(payload)));
}

impl View for Books {
    type V = State;

    closed spec fn view(&self) -> State {
        state_of(self.files_info@, self.payloads@, self.stage)
    }
}

impl Books {
    /// The books are in order wherever they exist.
    #[verifier::type_invariant]
    spec fn wf(self) -> bool {
        in_order(self.files_info@, self.payloads@, self.written, self.stage)
    }

    /// The books of a new writer.
    fn new() -> (books: Books)
        ensures
            books@ == State::start(),
    {
        assert(members_of(Seq::empty(), Seq::empty()) =~= Seq::empty());
        Books {
            files_info: Vec::new(),
            written: 0,
            payloads: Ghost(Seq::empty()),
            stage: Stage::Idle,
        }
    }

    /// The number of bytes that make up the stream so far.
    fn written(&self) -> (written: usize)
        ensures
            written == self@.emitted().len(),
            self@.inv(),
    {
        proof {
            use_type_invariant(self);
        }
        self.written
    }

    /// Enters one event, and says what comes next.
    fn step(self, event: Event) -> (next: (Books, Action))
        ensures
            (next.0@, next.1@) == self@.step(event@),
            self@.inv(),
            next.0@.inv(),
    {
        proof {
            use_type_invariant(&self);
        }
        let ghost before = self@;
        let ghost members = self@.members;
        let Books { mut files_info, written, mut payloads, stage } = self;
        let (stage, written, action) = match (stage, event) {
            (Stage::Idle, Event::Start { name, datetime }) => {
                let (date, time) = datetime.ms_dos();
                let header = local_file_header(name.as_str(), date, time);
                match written.checked_add(header.len()) {
                    Some(_) => {
                        let open = Open {
                            name,
                            date,
                            time,
                            offset: written,
                            size: 0,
                            hasher: crc32fast::Hasher::new(),
                        };
                        (Stage::Header(open), written, Action::Write(header))
                    },
                    None => (Stage::Idle, written, Action::Refused),
                }
            },
            (Stage::Header(open), Event::Written) => {
                proof {
                    lemma_member_len(open.member(Seq::empty()));
                    assert(open.taken() =~= Seq::empty());
                    let next = state_of(files_info@, payloads@, Stage::Reading(open));
                    assert(next.emitted() =~= before.emitted() + before.pending());
                }
                let name_len = open.name.as_str().as_bytes().len();
                (Stage::Reading(open), written + FILE_HEADER_BASE_SIZE + name_len, Action::Read)
            },
            (Stage::Reading(open), Event::Data(chunk)) => {
                if chunk.len() == 0 {
                    proof {
                        lemma_member_len(open.member(open.taken()));
                    }
                    match written.checked_add(DESCRIPTOR_SIZE) {
                        Some(_) => {
                            let Open { name, date, time, offset, size, hasher } = open;
                            let ghost payload = hasher_input(hasher);
                            let crc = hasher.finalize();
                            let descriptor = data_descriptor(crc, size);
                            let info = FileInfo { name, size, crc, offset, datetime: (date, time) };
                            let stage = Stage::Descriptor(info, Ghost(payload));
                            (stage, written, Action::Write(descriptor))
                        },
                        None => (Stage::Reading(open), written, Action::Refused),
                    }
                } else {
                    match written.checked_add(chunk.len()) {
                        Some(_) => {
                            let Open { name, date, time, offset, size, mut hasher } = open;
                            let ghost payload = hasher_input(hasher);
                            hasher.update(chunk);
                            let size = size + chunk.len();
                            proof {
                                let all = payload + chunk@;
                                assert(all.take(all.len() - chunk@.len()) =~= payload);
                                assert(all.skip(all.len() - chunk@.len()) =~= chunk@);
                            }
                            let open = Open { name, date, time, offset, size, hasher };
                            (Stage::Chunk(open, chunk.len()), written, Action::WriteData)
                        },
                        None => (Stage::Reading(open), written, Action::Refused),
                    }
                }
            },
            (Stage::Chunk(open, n), Event::Written) => {
                proof {
                    let all = open.taken();
                    assert(all.take(all.len() - n) + all.skip(all.len() - n) =~= all);
                    let next = state_of(files_info@, payloads@, Stage::Reading(open));
                    assert(next.emitted() =~= before.emitted() + before.pending());
                }
                (Stage::Reading(open), written + n, Action::Read)
            },
            (Stage::Descriptor(info, payload), Event::Written) => {
                proof {
                    let member = info.member(payload@);
                    lemma_member_len(member);
                    lemma_members_of_push(files_info@, payloads@, info, payload@);
                    let longer = members.push(member);
                    assert(longer.drop_last() =~= members);
                    assert(members_bytes(longer) =~= before.emitted() + before.pending());
                    assert forall|i: int| 0 <= i <= members.len() implies offset_of(longer, i)
                        == offset_of(members, i) by {
                        assert(longer.take(i) =~= members.take(i));
                    }
                    assert(members.take(members.len() as int) =~= members);
                }
                files_info.push(info);
                proof {
                    payloads@ = payloads@.push(payload@);
                }
                (Stage::Idle, written + DESCRIPTOR_SIZE, Action::Done)
            },
            (stage, _) => (stage, written, Action::Refused),
        };
        (Books { files_info, written, payloads, stage }, action)
    }

    /// Closes the books: the central directory of the complete members, and
    /// the end-of-central-directory record.
    fn close(self) -> (trailer: Vec<u8>)
        ensures
            trailer@ == self@.trailer(),
    {
        proof {
            use_type_invariant(&self);
        }
        let ghost members = self@.members;
        let Books { files_info, written, payloads, stage } = self;
        let mut trailer: Vec<u8> = Vec::new();
        let mut i: usize = 0;
        assert(trailer@ =~= directory_bytes(members, 0));
        while i < files_info.len()
            invariant
                i <= files_info.len(),
                members == members_of(files_info@, payloads@),
                payloads@.len() == files_info@.len(),
                forall|k: int|
                    0 <= k < files_info@.len() ==> {
                        &&& (#[trigger] files_info@[k]).describes(payloads@[k])
                        &&& files_info@[k].offset == offset_of(members, k)
                    },
                trailer@ == directory_bytes(members, i as int),
            decreases files_info.len() - i,
        {
            let info = &files_info[i];
            let entry = central_directory_entry(
                info.name.as_str(),
                info.datetime.0,
                info.datetime.1,
                info.crc,
                info.size,
                info.offset,
            );
            put_bytes(&mut trailer, entry.as_slice());
            proof {
                assert(files_info@[i as int].describes(payloads@[i as int]));
                assert(members[i as int] == files_info@[i as int].member(payloads@[i as int]));
            }
            i += 1;
        }
        let end = end_of_central_directory(files_info.len(), trailer.len(), written);
        put_bytes(&mut trailer, end.as_slice());
        trailer
    }
}

impl<W> View for Archive<W> {
    type V = State;

    closed spec fn view(&self) -> State {
        self.books@
    }
}

impl<W> Archive<W> {
    /// The sink that the writer was made with.
    pub closed spec fn sink(&self) -> W {
        self.sink
    }

    /// Create a new zip archive around the sink that its bytes will go to.
    pub fn new(sink: W) -> (archive: Self)
        ensures
            archive@ == State::start(),
            archive.sink() == sink,
    {
        Self { sink, books: Books::new() }
    }

    /// The sink, for the driver to write to.
    pub fn sink_mut(&mut self) -> (sink: &mut W)
        ensures
            *sink == old(self).sink(),
            final(self).sink() == *final(sink),
            final(self)@ == old(self)@,
    {
        &mut self.sink
    }

    /// Takes the append of a member one step on: `event` says what the
    /// driver has done, the action what it is to do next.
    ///
    /// An append begins with `Start`. The driver then carries out each action
    /// and reports it, `Written` after a write, `Data` after a read, up to
    /// `Done`. Where the sink or the source fails, the driver stops: the
    /// member is then not on record, and the bytes that were written stay.
    pub fn append(&mut self, event: Event) -> (action: Action)
        ensures
            (final(self)@, action@) == old(self)@.step(event@),
            final(self).sink() == old(self).sink(),
            old(self)@.inv(),
            final(self)@.inv(),
    {
        let mut books = Books::new();
        core::mem::swap(&mut self.books, &mut books);
        let (books, action) = books.step(event);
        self.books = books;
        action
    }

    /// Finalize the archive: returns the sink, and the bytes that end the
    /// archive once the driver has written them to it.
    ///
    /// These are one central directory entry for each complete member, in
    /// the order of the appends, and the end-of-central-directory record. A
    /// member whose append did not reach `Done` has no entry.
    pub fn finalize(self) -> (parts: (W, Vec<u8>))
        ensures
            parts.0 == self.sink(),
            parts.1@ == self@.trailer(),
    {
        let Archive { sink, books } = self;
        (sink, books.close())
    }

    /// The number of bytes that make up the stream so far.
    pub fn written(&self) -> (written: usize)
        ensures
            written == self@.emitted().len(),
            self@.inv(),
    {
        self.books.written()
    }
}

} // verus!
