//! The length of an archive, known from the names and the payload sizes alone.

use crate::layout::{archive_bytes, lemma_archive_len, Member};
use crate::records::{
    CENTRAL_DIRECTORY_ENTRY_BASE_SIZE, DESCRIPTOR_SIZE, END_OF_CENTRAL_DIRECTORY_SIZE,
    FILE_HEADER_BASE_SIZE,
};
use vstd::arithmetic::div_mod::{lemma_add_mod_noop, lemma_mod_twice, lemma_small_mod};
use vstd::prelude::*;
use vstd::seq_lib::{to_multiset_contains, to_multiset_len, to_multiset_remove};
use vstd::utf8::encode_utf8;

verus! {

/// What one member adds to the archive: a local file header, the payload, a
/// data descriptor and a central directory entry. The name stands twice.
pub open spec fn entry_size(name: Seq<char>, size: usize) -> int {
    FILE_HEADER_BASE_SIZE + encode_utf8(name).len() + size + DESCRIPTOR_SIZE
        + CENTRAL_DIRECTORY_ENTRY_BASE_SIZE + encode_utf8(name).len()
}

/// What the members add to the archive, all together.
pub open spec fn entries_size(files: Seq<(&str, usize)>) -> int
    decreases files.len(),
{
    if files.len() == 0 {
        0
    } else {
        entries_size(files.drop_last()) + entry_size(files.last().0@, files.last().1)
    }
}

/// The exact length of the archive that holds `files`, each given by its name
/// and the size of its payload.
pub open spec fn archive_total(files: Seq<(&str, usize)>) -> int {
    entries_size(files) + END_OF_CENTRAL_DIRECTORY_SIZE
}

/// The number of values of `usize`.
pub open spec fn usize_range() -> int {
    usize::MAX + 1
}

/// Adds `x` to a sum that is kept modulo the range of `usize`.
fn add_wrapping(sum: usize, x: usize, Ghost(exact): Ghost<int>) -> (next: usize)
    requires
        sum == exact % usize_range(),
    ensures
        next == (exact + x) % usize_range(),
{
    proof {
        let m = usize_range();
        lemma_add_mod_noop(exact, x as int, m);
        lemma_small_mod(x as nat, m as nat);
        if sum + x > usize::MAX {
            lemma_add_mod_noop(sum + x - m, m, m);
            lemma_small_mod((sum + x - m) as nat, m as nat);
            assert(m % m == 0) by (nonlinear_arith)
                requires
                    m > 0,
            ;
            lemma_mod_twice(sum + x - m, m);
        } else {
            lemma_small_mod((sum + x) as nat, m as nat);
        }
    }
    sum.wrapping_add(x)
}

/// Calculate the size that an archive could be based on the names and sizes of
/// files.
///
/// The sum is exact wherever it fits in a `usize`, and wraps around where it
/// does not.
pub fn archive_size(files: &[(&str, usize)]) -> (size: usize)
    ensures
        size == archive_total(files@) % usize_range(),
        archive_total(files@) <= usize::MAX ==> size == archive_total(files@),
{
    let mut sum: usize = 0;
    let mut i: usize = 0;
    proof {
        lemma_small_mod(0, usize_range() as nat);
        assert(files@.take(0) =~= Seq::empty());
    }
    while i < files.len()
        invariant
            i <= files.len(),
            sum == entries_size(files@.take(i as int)) % usize_range(),
        decreases files.len() - i,
    {
        let ghost before = entries_size(files@.take(i as int));
        let name = files[i].0.as_bytes();
        let size = files[i].1;
        sum = add_wrapping(sum, FILE_HEADER_BASE_SIZE, Ghost(before));
        sum = add_wrapping(sum, name.len(), Ghost(before + FILE_HEADER_BASE_SIZE));
        sum = add_wrapping(sum, size, Ghost(before + FILE_HEADER_BASE_SIZE + name.len()));
        sum = add_wrapping(
            sum,
            DESCRIPTOR_SIZE,
            Ghost(before + FILE_HEADER_BASE_SIZE + name.len() + size),
        );
        sum = add_wrapping(
            sum,
            CENTRAL_DIRECTORY_ENTRY_BASE_SIZE,
            Ghost(before + FILE_HEADER_BASE_SIZE + name.len() + size + DESCRIPTOR_SIZE),
        );
        sum = add_wrapping(
            sum,
            name.len(),
            Ghost(
                before + FILE_HEADER_BASE_SIZE + name.len() + size + DESCRIPTOR_SIZE
                    + CENTRAL_DIRECTORY_ENTRY_BASE_SIZE,
            ),
        );
        proof {
            let next = files@.take(i + 1);
            assert(next.drop_last() =~= files@.take(i as int));
            assert(next.last() == files@[i as int]);
        }
        i += 1;
    }
    proof {
        assert(files@.take(i as int) =~= files@);
    }
    let size = add_wrapping(sum, END_OF_CENTRAL_DIRECTORY_SIZE, Ghost(entries_size(files@)));
    proof {
        if archive_total(files@) <= usize::MAX {
            lemma_entries_size_nonnegative(files@);
            lemma_small_mod(archive_total(files@) as nat, usize_range() as nat);
        }
    }
    size
}

/// No member takes a negative number of bytes.
pub proof fn lemma_entries_size_nonnegative(files: Seq<(&str, usize)>)
    ensures
        entries_size(files) >= 0,
    decreases files.len(),
{
    if files.len() > 0 {
        lemma_entries_size_nonnegative(files.drop_last());
    }
}

/// Taking one file out of the list takes its share out of the sum, wherever
/// in the list it stood.
pub proof fn lemma_entries_size_remove(files: Seq<(&str, usize)>, i: int)
    requires
        0 <= i < files.len(),
    ensures
        entries_size(files) == entries_size(files.remove(i)) + entry_size(files[i].0@, files[i].1),
    decreases files.len(),
{
    if i == files.len() - 1 {
        assert(files.remove(i) =~= files.drop_last());
    } else {
        lemma_entries_size_remove(files.drop_last(), i);
        assert(files.remove(i).drop_last() =~= files.drop_last().remove(i));
        assert(files.remove(i).last() == files.last());
    }
}

/// The size does not depend on the order of the files: two lists that hold
/// the same files the same number of times give the same size.
pub proof fn lemma_archive_total_permutation(a: Seq<(&str, usize)>, b: Seq<(&str, usize)>)
    requires
        a.to_multiset() == b.to_multiset(),
    ensures
        archive_total(a) == archive_total(b),
    decreases a.len(),
{
    to_multiset_len(a);
    to_multiset_len(b);
    if a.len() > 0 {
        let x = a.last();
        let i = a.len() - 1;
        to_multiset_contains(a, x);
        to_multiset_contains(b, x);
        assert(a[i] == x);
        assert(a.contains(x));
        let j = choose|j: int| 0 <= j < b.len() && b[j] == x;
        to_multiset_remove(a, i);
        to_multiset_remove(b, j);
        lemma_archive_total_permutation(a.remove(i), b.remove(j));
        lemma_entries_size_remove(a, i);
        lemma_entries_size_remove(b, j);
    }
}

/// The size of a list of files is the length of the archive that holds
/// members with those names and payloads of those sizes.
pub proof fn lemma_archive_total_is_archive_length(
    files: Seq<(&str, usize)>,
    members: Seq<Member>,
)
    requires
        files.len() == members.len(),
        forall|i: int|
            0 <= i < files.len() ==> encode_utf8(files[i].0@) == (#[trigger] members[i]).name
                && files[i].1 == members[i].payload.len(),
    ensures
        archive_total(files) == archive_bytes(members).len(),
    decreases files.len(),
{
    lemma_archive_len(members);
    if files.len() > 0 {
        lemma_archive_len(members.drop_last());
        lemma_archive_total_is_archive_length(files.drop_last(), members.drop_last());
    }
}

} // verus!
