//! What holds of an archive as a whole, from the first append to the trailer.

use crate::layout::{archive_bytes, members_bytes, Member};
use crate::machine::{lemma_idle_stream, lemma_whole_append, Progress, State};
use crate::size::{archive_total, lemma_archive_total_is_archive_length};
use vstd::prelude::*;
use vstd::utf8::encode_utf8;

verus! {

/// One append as its driver sees it: the name, the packed date and time, and
/// what the source gave at each read before it ended.
pub struct Source {
    /// The name, in UTF-8.
    pub name: Seq<u8>,
    /// The packed date.
    pub date: u16,
    /// The packed time.
    pub time: u16,
    /// The bytes of each read, in order.
    pub chunks: Seq<Seq<u8>>,
}

impl Source {
    /// The member that the append makes: its payload is all the reads, one
    /// after the other.
    pub open spec fn member(self) -> Member {
        Member { name: self.name, date: self.date, time: self.time, payload: self.chunks.flatten() }
    }

    /// No read before the end of the source came back empty.
    pub open spec fn regular(self) -> bool {
        forall|i: int| 0 <= i < self.chunks.len() ==> (#[trigger] self.chunks[i]).len() > 0
    }
}

/// The members that the appends make.
pub open spec fn members_of(sources: Seq<Source>) -> Seq<Member> {
    sources.map_values(|source: Source| source.member())
}

/// The state of a new writer after one whole append for each source.
pub open spec fn after_appends(sources: Seq<Source>) -> State
    decreases sources.len(),
{
    if sources.len() == 0 {
        State::start()
    } else {
        let last = sources.last();
        after_appends(sources.drop_last()).appended(last.name, last.date, last.time, last.chunks)
    }
}

/// The stream that the sink holds once the appends are done and the trailer
/// of `finalize` is written.
pub open spec fn written_archive(sources: Seq<Source>) -> Seq<u8> {
    after_appends(sources).emitted() + after_appends(sources).trailer()
}

/// Appending each source and finalizing gives the archive of the members:
/// every member with its whole payload, in the order of the appends, whatever
/// the chunks were in which the payloads came.
pub proof fn lemma_appends_build_the_archive(sources: Seq<Source>)
    requires
        forall|i: int| 0 <= i < sources.len() ==> (#[trigger] sources[i]).regular(),
        members_bytes(members_of(sources)).len() <= usize::MAX,
    ensures
        after_appends(sources) == (State {
            members: members_of(sources),
            progress: Progress::Idle,
        }),
        written_archive(sources) == archive_bytes(members_of(sources)),
    decreases sources.len(),
{
    if sources.len() == 0 {
        assert(members_of(sources) =~= Seq::empty());
    } else {
        let front = sources.drop_last();
        let last = sources.last();
        assert(members_of(sources).drop_last() =~= members_of(front));
        assert(members_of(sources).last() == last.member());
        lemma_appends_build_the_archive(front);
        lemma_whole_append(after_appends(front), last.name, last.date, last.time, last.chunks);
        assert(members_of(front).push(last.member()) =~= members_of(sources));
    }
    lemma_idle_stream(after_appends(sources));
}

/// The size that `archive_size` computes from the names and the payload sizes
/// is the length of the archive that is written for them.
pub proof fn lemma_size_is_length_of_written_archive(
    files: Seq<(&str, usize)>,
    sources: Seq<Source>,
)
    requires
        files.len() == sources.len(),
        forall|i: int|
            0 <= i < files.len() ==> {
                &&& encode_utf8(files[i].0@) == (#[trigger] sources[i]).name
                &&& files[i].1 == sources[i].chunks.flatten().len()
                &&& sources[i].regular()
            },
        archive_total(files) <= usize::MAX,
    ensures
        written_archive(sources).len() == archive_total(files),
{
    let members = members_of(sources);
    assert forall|i: int| 0 <= i < files.len() implies {
        &&& encode_utf8(files[i].0@) == (#[trigger] members[i]).name
        &&& files[i].1 == members[i].payload.len()
    } by {
        assert(sources[i].regular());
    }
    lemma_archive_total_is_archive_length(files, members);
    assert(members_bytes(members).len() <= archive_bytes(members).len());
    lemma_appends_build_the_archive(sources);
}

} // verus!
