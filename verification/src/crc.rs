//! The CRC-32 checksum: what it is, and the `crc32fast` crate that computes
//! it.
//!
//! The checksum is defined here bit by bit. That the hasher of `crc32fast`
//! computes it is believed, not proved: the library takes from the crate a
//! hasher that is fed bytes piece by piece, and whose result depends on the
//! bytes alone, not on the pieces.

use vstd::prelude::*;

verus! {

/// One turn of the shift register of CRC-32 (IEEE): the lowest bit leaves,
/// and where it was set the reflected polynomial `0xedb88320` is added.
pub open spec fn crc32_turn(register: u32) -> u32 {
    if register & 1u32 == 1u32 {
        (register >> 1u32) ^ 0xedb8_8320u32
    } else {
        register >> 1u32
    }
}

/// The shift register after one more byte: the byte is added to the lowest
/// eight bits, and the register turns eight times.
pub open spec fn crc32_take(register: u32, byte: u8) -> u32 {
    crc32_turn(
        crc32_turn(
            crc32_turn(
                crc32_turn(
                    crc32_turn(crc32_turn(crc32_turn(crc32_turn(register ^ (byte as u32))))),
                ),
            ),
        ),
    )
}

/// The shift register after `data`: all ones at first, then one byte after
/// the other.
pub open spec fn crc32_register(data: Seq<u8>) -> u32
    decreases data.len(),
{
    if data.len() == 0 {
        0xffff_ffffu32
    } else {
        crc32_take(crc32_register(data.drop_last()), data.last())
    }
}

/// The CRC-32 (IEEE) checksum of `data`, the checksum of the format: the
/// shift register after `data`, with every bit turned over.
pub open spec fn crc32(data: Seq<u8>) -> u32 {
    crc32_register(data) ^ 0xffff_ffffu32
}

/// `crc32fast::Hasher`, a CRC-32 computation in progress. Nothing of its
/// inside is visible here.
#[verifier::external_type_specification]
#[verifier::external_body]
pub struct ExHasher(crc32fast::Hasher);

/// The bytes that a hasher has been fed since `Hasher::new` made it, in the
/// order in which `Hasher::update` took them.
pub uninterp spec fn hasher_input(hasher: crc32fast::Hasher) -> Seq<u8>;

/// `Hasher::new`: a fresh hasher has been fed nothing.
pub assume_specification[ crc32fast::Hasher::new ]() -> (hasher: crc32fast::Hasher)
    ensures
        hasher_input(hasher) == Seq::<u8>::empty(),
;

/// `Hasher::update`: the slice is added behind what the hasher was fed
/// before. The hasher counts its bytes in a `u64`; the count must not
/// overflow.
pub assume_specification[ crc32fast::Hasher::update ](hasher: &mut crc32fast::Hasher, buf: &[u8])
    requires
        hasher_input(*old(hasher)).len() + buf@.len() <= u64::MAX,
    ensures
        hasher_input(*final(hasher)) == hasher_input(*old(hasher)) + buf@,
;

/// `Hasher::finalize`: the CRC-32 (IEEE) checksum of all that the hasher was
/// fed, whatever the slices were in which it came.
pub assume_specification[ crc32fast::Hasher::finalize ](hasher: crc32fast::Hasher) -> (crc: u32)
    ensures
        crc == crc32(hasher_input(hasher)),
;

/// Turns the shift register once.
fn turn(register: u32) -> (next: u32)
    ensures
        next == crc32_turn(register),
{
    if register & 1 == 1 {
        (register >> 1) ^ 0xedb8_8320
    } else {
        register >> 1
    }
}

/// Takes one byte into the shift register.
fn take(register: u32, byte: u8) -> (next: u32)
    ensures
        next == crc32_take(register, byte),
{
    let r0 = register ^ (byte as u32);
    let r1 = turn(r0);
    let r2 = turn(r1);
    let r3 = turn(r2);
    let r4 = turn(r3);
    let r5 = turn(r4);
    let r6 = turn(r5);
    let r7 = turn(r6);
    turn(r7)
}

/// Computes the checksum bit by bit, as its definition reads. This is slow,
/// and no writer uses it: it is there for the hasher to be held against.
pub fn crc32_bit_by_bit(data: &[u8]) -> (crc: u32)
    ensures
        crc == crc32(data@),
{
    let mut register: u32 = 0xffff_ffff;
    let mut i: usize = 0;
    while i < data.len()
        invariant
            i <= data.len(),
            register == crc32_register(data@.take(i as int)),
        decreases data.len() - i,
    {
        proof {
            let next = data@.take(i + 1);
            assert(next.drop_last() =~= data@.take(i as int));
            assert(next.last() == data@[i as int]);
        }
        register = take(register, data[i]);
        i += 1;
    }
    proof {
        assert(data@.take(i as int) =~= data@);
    }
    register ^ 0xffff_ffff
}

/// Nothing has the checksum zero.
pub proof fn lemma_crc32_of_nothing()
    ensures
        crc32(Seq::empty()) == 0,
{
    assert(0xffff_ffffu32 ^ 0xffff_ffffu32 == 0u32) by (bit_vector);
}

} // verus!
