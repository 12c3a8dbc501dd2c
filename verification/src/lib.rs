//! A verified codec for length-prefixed, type-tagged, checksummed binary
//! records: the chunk structure of the PNG container format.
//!
//! A chunk carries a 4-byte type tag whose per-byte letter case encodes four
//! property bits, an opaque payload, and a CRC-32/ISO-HDLC checksum over the
//! type and payload bytes. The library validates tags, parses and serializes
//! whole chunks byte-exactly, and proves the wire format round-trips.

pub mod checksum;
pub mod chunk;
pub mod chunk_type;
pub mod text;
pub mod wire;
