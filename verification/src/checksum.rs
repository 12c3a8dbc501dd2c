//! The checksum that guards a chunk's type and payload bytes.

use vstd::prelude::*;

verus! {

/// The CRC-32/ISO-HDLC checksum of a byte sequence (polynomial 0x04C11DB7
/// reflected, initial value and final XOR 0xFFFFFFFF). The algorithm itself is
/// supplied by the crc crate; this name stands for its result, which depends
/// on the input bytes alone.
pub uninterp spec fn crc32_of(bytes: Seq<u8>) -> u32;

/// Relies on the crc crate's `Crc::<u32>::checksum` with the `CRC_32_ISO_HDLC`
/// algorithm: the checksum is a pure function of the input bytes.
#[verifier::external_body]
pub(crate) fn crc32_iso_hdlc(bytes: &Vec<u8>) -> (r: u32)
    ensures
        r == crc32_of(bytes@),
{
    crc::Crc::<u32>::new(&crc::CRC_32_ISO_HDLC).checksum(bytes.as_slice())
}

} // verus!
