//! The running CRC-32 that the stream wrappers keep, computed by the
//! `crc32fast` crate.

use vstd::prelude::*;

verus! {

/// `crc32fast::Hasher`, a CRC-32 computation in progress.
#[verifier::external_type_specification]
#[verifier::external_body]
pub struct ExHasher(crc32fast::Hasher);

/// The bytes that a hasher has been fed since it was made, in order.
pub uninterp spec fn hasher_input(hasher: crc32fast::Hasher) -> Seq<u8>;

/// The CRC-32 of a byte string, as `crc32fast` computes it.
pub uninterp spec fn crc32(bytes: Seq<u8>) -> u32;

/// The checksum of an entry without content: the value that a hasher starts
/// from.
pub const EMPTY_CHECKSUM: u32 = 0;

/// The checksum of a byte string: its CRC-32, which for no bytes at all is
/// `EMPTY_CHECKSUM`.
pub open spec fn checksum_of(bytes: Seq<u8>) -> u32 {
    if bytes.len() == 0 {
        EMPTY_CHECKSUM
    } else {
        crc32(bytes)
    }
}

/// `crc32fast::Hasher::new`: a hasher that has been fed nothing yet.
#[verifier::external_body]
pub(crate) fn hasher_new() -> (hasher: crc32fast::Hasher)
    ensures
        hasher_input(hasher) == Seq::<u8>::empty(),
{
    crc32fast::Hasher::new()
}

/// `crc32fast::Hasher::update`: the hasher has been fed `buf` after what it
/// had been fed before. The hasher counts its input in a `u64`, so the total
/// must fit in one.
#[verifier::external_body]
pub(crate) fn hasher_update(hasher: &mut crc32fast::Hasher, buf: &[u8])
    requires
        hasher_input(*old(hasher)).len() + buf@.len() <= u64::MAX,
    ensures
        hasher_input(*final(hasher)) == hasher_input(*old(hasher)) + buf@,
{
    hasher.update(buf)
}

/// `crc32fast::Hasher::finalize` on a clone of the hasher, which stays
/// usable: the CRC-32 of everything it has been fed. A hasher that has been
/// fed nothing gives 0, the value it starts from.
#[verifier::external_body]
pub(crate) fn hasher_checksum(hasher: &crc32fast::Hasher) -> (sum: u32)
    ensures
        sum == crc32(hasher_input(*hasher)),
        hasher_input(*hasher).len() == 0 ==> sum == EMPTY_CHECKSUM,
{
    hasher.clone().finalize()
}

} // verus!
