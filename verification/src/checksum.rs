//! The CRC-32 checksum that guards message bodies.
use vstd::prelude::*;

verus! {

/// The CRC-32 (IEEE polynomial, reflected, initial and final value all ones)
/// of a byte sequence, as the `crc` crate computes it.
pub uninterp spec fn crc32_ieee(data: Seq<u8>) -> u32;

/// Calls `crc::crc32::checksum_ieee`, which returns the CRC-32 (IEEE) of the
/// bytes; the contract only ties the result to the bytes through the name
/// [`crc32_ieee`].
#[verifier::external_body]
pub(crate) fn crc32(data: &[u8]) -> (r: u32)
    ensures
        r == crc32_ieee(data@),
{
    crc::crc32::checksum_ieee(data)
}

} // verus!
