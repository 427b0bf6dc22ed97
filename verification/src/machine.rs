//! The writer as a state machine: what it has put out, what it waits for, and
//! how one event moves it on.

use crate::datetime::FileDateTime;
use crate::layout::{archive_bytes, lemma_member_len, members_bytes, trailer_bytes, Member};
use vstd::prelude::*;
use vstd::utf8::encode_utf8;

verus! {

/// What the driver of a writer reports to it.
#[derive(Debug)]
pub enum Event<'a> {
    /// A member is to be appended under this name, with this date and time.
    Start { name: String, datetime: FileDateTime },
    /// The bytes of the last write action have all reached the sink.
    Written,
    /// The source was read and gave these bytes; none at its end.
    Data(&'a [u8]),
}

/// An `Event`, with its name and its bytes as sequences and its date and time
/// packed.
pub enum Signal {
    /// A member is to be appended.
    Start { name: Seq<u8>, date: u16, time: u16 },
    /// The last write action is complete.
    Written,
    /// The source gave these bytes.
    Data(Seq<u8>),
}

impl<'a> View for Event<'a> {
    type V = Signal;

    open spec fn view(&self) -> Signal {
        match self {
            Event::Start { name, datetime } => Signal::Start {
                name: encode_utf8(name@),
                date: datetime.packed().0,
                time: datetime.packed().1,
            },
            Event::Written => Signal::Written,
            Event::Data(chunk) => Signal::Data(chunk@),
        }
    }
}

/// What a writer asks of its driver in answer to an event.
#[derive(Debug)]
pub enum Action {
    /// Write these bytes to the sink, then report `Written`.
    Write(Vec<u8>),
    /// Write the bytes of the `Data` event just reported to the sink, then
    /// report `Written`.
    WriteData,
    /// Read from the source, then report `Data`.
    Read,
    /// The member is complete.
    Done,
    /// The event does not fit the state of the writer, or the archive would
    /// grow past what a `usize` can count. Nothing has changed.
    Refused,
}

/// An `Action`, with its bytes as a sequence.
pub enum Output {
    /// Write these bytes.
    Write(Seq<u8>),
    /// Write the bytes of the event.
    WriteData,
    /// Read from the source.
    Read,
    /// The member is complete.
    Done,
    /// Nothing has changed.
    Refused,
}

impl View for Action {
    type V = Output;

    open spec fn view(&self) -> Output {
        match self {
            Action::Write(bytes) => Output::Write(bytes@),
            Action::WriteData => Output::WriteData,
            Action::Read => Output::Read,
            Action::Done => Output::Done,
            Action::Refused => Output::Refused,
        }
    }
}

/// How far the append of a member has come. In each case `member.payload`
/// holds the bytes of the payload that have reached the sink.
pub enum Progress {
    /// No append is under way.
    Idle,
    /// The local file header was handed out; its write is not confirmed.
    Header { member: Member },
    /// The writer waits for the next bytes of the source.
    Reading { member: Member },
    /// `chunk` was taken into checksum and size and is to be written; its
    /// write is not confirmed.
    Chunk { member: Member, chunk: Seq<u8> },
    /// The source has ended and the data descriptor was handed out; its
    /// write is not confirmed.
    Descriptor { member: Member },
}

/// The state of a writer.
pub struct State {
    /// The members that are complete, in the order of their appends.
    pub members: Seq<Member>,
    /// The append under way.
    pub progress: Progress,
}

impl State {
    /// The state of a new writer.
    pub open spec fn start() -> State {
        State { members: Seq::empty(), progress: Progress::Idle }
    }

    /// Every byte whose write was confirmed, from the first on: the stream
    /// as the sink holds it.
    pub open spec fn emitted(self) -> Seq<u8> {
        match self.progress {
            Progress::Idle => members_bytes(self.members),
            Progress::Header { member } => members_bytes(self.members),
            Progress::Reading { member } => members_bytes(self.members) + member.header()
                + member.payload,
            Progress::Chunk { member, chunk } => members_bytes(self.members) + member.header()
                + member.payload,
            Progress::Descriptor { member } => members_bytes(self.members) + member.header()
                + member.payload,
        }
    }

    /// The bytes of the write action that is not confirmed yet.
    pub open spec fn pending(self) -> Seq<u8> {
        match self.progress {
            Progress::Idle => Seq::empty(),
            Progress::Header { member } => member.header(),
            Progress::Reading { member } => Seq::empty(),
            Progress::Chunk { member, chunk } => chunk,
            Progress::Descriptor { member } => member.descriptor(),
        }
    }

    /// True if `more` bytes after those that were emitted can still be
    /// counted.
    pub open spec fn has_room(self, more: Seq<u8>) -> bool {
        self.emitted().len() + more.len() <= usize::MAX
    }

    /// What holds of every state that a writer reaches: the stream with the
    /// bytes that are under way can be counted, and no payload has been
    /// taken in before the header is written.
    pub open spec fn inv(self) -> bool {
        &&& self.has_room(self.pending())
        &&& self.progress matches Progress::Header { member } ==> member.payload.len() == 0
    }

    /// The state after `signal`, and the action that answers it.
    pub open spec fn step(self, signal: Signal) -> (State, Output) {
        match (self.progress, signal) {
            (Progress::Idle, Signal::Start { name, date, time }) => {
                let member = Member { name, date, time, payload: Seq::empty() };
                if self.has_room(member.header()) {
                    (
                        State { progress: Progress::Header { member }, ..self },
                        Output::Write(member.header()),
                    )
                } else {
                    (self, Output::Refused)
                }
            },
            (Progress::Header { member }, Signal::Written) => (
                State { progress: Progress::Reading { member }, ..self },
                Output::Read,
            ),
            (Progress::Reading { member }, Signal::Data(chunk)) => {
                if chunk.len() == 0 {
                    if self.has_room(member.descriptor()) {
                        (
                            State { progress: Progress::Descriptor { member }, ..self },
                            Output::Write(member.descriptor()),
                        )
                    } else {
                        (self, Output::Refused)
                    }
                } else if self.has_room(chunk) {
                    (
                        State { progress: Progress::Chunk { member, chunk }, ..self },
                        Output::WriteData,
                    )
                } else {
                    (self, Output::Refused)
                }
            },
            (Progress::Chunk { member, chunk }, Signal::Written) => (
                State {
                    progress: Progress::Reading {
                        member: Member { payload: member.payload + chunk, ..member },
                    },
                    ..self
                },
                Output::Read,
            ),
            (Progress::Descriptor { member }, Signal::Written) => (
                State { members: self.members.push(member), progress: Progress::Idle },
                Output::Done,
            ),
            _ => (self, Output::Refused),
        }
    }

    /// The state after the source gave each of `chunks` in turn and each was
    /// written.
    pub open spec fn fed(self, chunks: Seq<Seq<u8>>) -> State
        decreases chunks.len(),
    {
        if chunks.len() == 0 {
            self
        } else {
            self.fed(chunks.drop_last()).step(Signal::Data(chunks.last())).0.step(
                Signal::Written,
            ).0
        }
    }

    /// The state after a whole append: the header is written, the source
    /// gives `chunks` and then ends, and the descriptor is written.
    pub open spec fn appended(self, name: Seq<u8>, date: u16, time: u16, chunks: Seq<Seq<u8>>)
        -> State {
        self.step(Signal::Start { name, date, time }).0.step(Signal::Written).0.fed(chunks).step(
            Signal::Data(Seq::empty()),
        ).0.step(Signal::Written).0
    }

    /// What `finalize` hands out in this state: the central directory of the
    /// complete members and the end-of-central-directory record, for a
    /// central directory that begins where the stream ends.
    pub open spec fn trailer(self) -> Seq<u8> {
        trailer_bytes(self.members, self.emitted().len() as int)
    }
}

/// Every step keeps the invariant.
pub proof fn lemma_step_keeps_inv(state: State, signal: Signal)
    requires
        state.inv(),
    ensures
        state.step(signal).0.inv(),
{
    let next = state.step(signal).0;
    match (state.progress, signal) {
        (Progress::Header { member }, Signal::Written) => {
            assert(next.emitted() =~= state.emitted() + member.header());
        },
        (Progress::Chunk { member, chunk }, Signal::Written) => {
            assert(next.emitted() =~= state.emitted() + chunk);
        },
        (Progress::Descriptor { member }, Signal::Written) => {
            assert(next.members.drop_last() =~= state.members);
            assert(next.emitted() =~= state.emitted() + member.descriptor());
        },
        _ => {},
    }
}

/// The stream only grows, and only by what was handed out before: a step
/// adds the bytes under way where the signal is `Written`, and nothing
/// otherwise.
pub proof fn lemma_step_emits(state: State, signal: Signal)
    requires
        state.inv(),
    ensures
        state.step(signal).0.emitted() == if signal is Written {
            state.emitted() + state.pending()
        } else {
            state.emitted()
        },
{
    let next = state.step(signal).0;
    match (state.progress, signal) {
        (Progress::Idle, Signal::Written) => {
            assert(next.emitted() =~= state.emitted() + state.pending());
        },
        (Progress::Reading { member }, Signal::Written) => {
            assert(next.emitted() =~= state.emitted() + state.pending());
        },
        (Progress::Header { member }, Signal::Written) => {
            assert(next.emitted() =~= state.emitted() + member.header());
        },
        (Progress::Chunk { member, chunk }, Signal::Written) => {
            assert(next.emitted() =~= state.emitted() + chunk);
        },
        (Progress::Descriptor { member }, Signal::Written) => {
            assert(next.members.drop_last() =~= state.members);
            assert(next.emitted() =~= state.emitted() + member.descriptor());
        },
        _ => {},
    }
}

/// The bytes under way after a step are those of its write action: the
/// bytes of `Write`, the bytes of the signal for `WriteData`, and none after
/// `Read` and `Done`. `Refused` changes nothing.
pub proof fn lemma_step_hands_out(state: State, signal: Signal)
    ensures
        match state.step(signal).1 {
            Output::Write(bytes) => state.step(signal).0.pending() == bytes,
            Output::WriteData => signal matches Signal::Data(chunk)
                && state.step(signal).0.pending() == chunk,
            Output::Read => state.step(signal).0.pending() == Seq::<u8>::empty(),
            Output::Done => state.step(signal).0.pending() == Seq::<u8>::empty(),
            Output::Refused => state.step(signal).0 == state,
        },
{
}

/// While the source is read, the chunks that it gives add up: what counts is
/// the bytes, not where one read ended and the next began.
pub proof fn lemma_fed_chunks_add_up(state: State, member: Member, chunks: Seq<Seq<u8>>)
    requires
        state.progress == (Progress::Reading { member }),
        forall|i: int| 0 <= i < chunks.len() ==> (#[trigger] chunks[i]).len() > 0,
        state.emitted().len() + chunks.flatten().len() <= usize::MAX,
    ensures
        state.fed(chunks) == (State {
            progress: Progress::Reading {
                member: Member { payload: member.payload + chunks.flatten(), ..member },
            },
            ..state
        }),
    decreases chunks.len(),
{
    if chunks.len() == 0 {
        assert(member.payload + chunks.flatten() =~= member.payload);
    } else {
        let front = chunks.drop_last();
        let chunk = chunks.last();
        front.lemma_flatten_push(chunk);
        assert(front.push(chunk) =~= chunks);
        lemma_fed_chunks_add_up(state, member, front);
        let so_far = Member { payload: member.payload + front.flatten(), ..member };
        let reading = State { progress: Progress::Reading { member: so_far }, ..state };
        assert(reading.emitted() =~= state.emitted() + front.flatten());
        assert(so_far.payload + chunk =~= member.payload + chunks.flatten());
    }
}

/// A whole append adds one member, whose payload is all that the source
/// gave: the same member whatever the chunks were in which it came.
pub proof fn lemma_whole_append(
    state: State,
    name: Seq<u8>,
    date: u16,
    time: u16,
    chunks: Seq<Seq<u8>>,
)
    requires
        state.progress is Idle,
        forall|i: int| 0 <= i < chunks.len() ==> (#[trigger] chunks[i]).len() > 0,
        state.emitted().len() + (Member {
            name,
            date,
            time,
            payload: chunks.flatten(),
        }).bytes().len() <= usize::MAX,
    ensures
        state.appended(name, date, time, chunks) == (State {
            members: state.members.push(Member { name, date, time, payload: chunks.flatten() }),
            progress: Progress::Idle,
        }),
{
    let opened = Member { name, date, time, payload: Seq::empty() };
    let whole = Member { name, date, time, payload: chunks.flatten() };
    lemma_member_len(opened);
    lemma_member_len(whole);
    let reading = State { progress: Progress::Reading { member: opened }, ..state };
    assert(state.step(Signal::Start { name, date, time }).0.step(Signal::Written).0 == reading);
    assert(reading.emitted() =~= state.emitted() + opened.header());
    lemma_fed_chunks_add_up(reading, opened, chunks);
    assert(opened.payload + chunks.flatten() =~= chunks.flatten());
    let full = State { progress: Progress::Reading { member: whole }, ..state };
    assert(reading.fed(chunks) == full);
    assert(full.emitted() =~= state.emitted() + whole.header() + whole.payload);
}

/// Between two appends the stream holds the complete members and nothing
/// else, so that the trailer makes it the whole archive.
pub proof fn lemma_idle_stream(state: State)
    requires
        state.progress is Idle,
    ensures
        state.emitted() == members_bytes(state.members),
        state.emitted() + state.trailer() == archive_bytes(state.members),
{
}

} // verus!
