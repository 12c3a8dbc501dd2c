//! The chunk record: a declared length, a type tag, a payload and a
//! checksum, parsed from and serialized to the exact wire layout
//! (big-endian length, 4 type bytes, payload, big-endian checksum).

use crate::checksum::crc32_iso_hdlc;
use crate::checksum::crc32_of;
use crate::chunk_type::tag_valid;
use crate::chunk_type::ChunkType;
use crate::chunk_type::ChunkTypeError;
use crate::text::utf8_to_string;
use crate::wire::spec_u32_from_be_bytes;
use crate::wire::spec_u32_to_be_bytes;
use crate::wire::u32_from_be_bytes;
use crate::wire::u32_to_be_bytes;
use vstd::prelude::*;
use vstd::utf8::decode_utf8;
use vstd::utf8::valid_utf8;

verus! {

/// Why a byte buffer was rejected as a chunk, or a payload as text.
#[derive(Debug, Clone, Copy, PartialEq, Eq)]
pub enum ChunkError {
    /// The buffer holds fewer bytes than a fixed field or the declared
    /// payload length requires: `needed` bytes against `available`.
    Truncated { needed: u64, available: u64 },
    /// The 4-byte type field is not a valid type tag.
    InvalidType(ChunkTypeError),
    /// The checksum stored on the wire disagrees with the one recomputed
    /// over the type and payload bytes.
    ChecksumMismatch { stored: u32, computed: u32 },
    /// The payload is not valid UTF-8 text.
    NonTextPayload,
}

/// The fields a successful parse extracts from a wire buffer.
pub struct ChunkFields {
    pub length: u32,
    pub tag: Seq<u8>,
    pub data: Seq<u8>,
    pub crc: u32,
}

/// The meaning of a wire buffer: the parsed fields, or the error that
/// parsing reports, checked in this order: the two fixed leading fields are
/// present, the type tag is alphabetic, the payload and checksum fields are
/// present, the checksum agrees. Bytes beyond the record are ignored.
pub open spec fn spec_decode(bytes: Seq<u8>) -> Result<ChunkFields, ChunkError> {
    if bytes.len() < 4 {
        Err(ChunkError::Truncated { needed: 4, available: bytes.len() as u64 })
    } else if bytes.len() < 8 {
        Err(ChunkError::Truncated { needed: 8, available: bytes.len() as u64 })
    } else {
        let length = spec_u32_from_be_bytes(bytes.subrange(0, 4));
        let tag = bytes.subrange(4, 8);
        if !tag_valid(tag) {
            Err(ChunkError::InvalidType(ChunkTypeError::NonAlphabeticCharacters))
        } else if (bytes.len() as int) < 8 + (length as int) {
            Err(
                ChunkError::Truncated {
                    needed: (8 + length as int) as u64,
                    available: bytes.len() as u64,
                },
            )
        } else if (bytes.len() as int) < 12 + (length as int) {
            Err(
                ChunkError::Truncated {
                    needed: (12 + length as int) as u64,
                    available: bytes.len() as u64,
                },
            )
        } else {
            let data = bytes.subrange(8, 8 + length as int);
            let stored = spec_u32_from_be_bytes(
                bytes.subrange(8 + length as int, 12 + length as int),
            );
            let computed = crc32_of(tag + data);
            if stored != computed {
                Err(ChunkError::ChecksumMismatch { stored, computed })
            } else {
                Ok(ChunkFields { length, tag, data, crc: stored })
            }
        }
    }
}

/// A validated chunk. Its length always counts the payload bytes, its
/// checksum always covers the type and payload bytes, and its tag is always
/// alphabetic.
#[derive(Debug, Clone)]
pub struct Chunk {
    chunk_type: ChunkType,
    data: Vec<u8>,
    length: u32,
    crc: u32,
}

impl Chunk {
    /// The 4 bytes of the type tag.
    pub closed spec fn spec_chunk_type(self) -> Seq<u8> {
        self.chunk_type@
    }

    /// The payload bytes.
    pub closed spec fn spec_data(self) -> Seq<u8> {
        self.data@
    }

    /// The declared payload length.
    pub closed spec fn spec_length(self) -> u32 {
        self.length
    }

    /// The stored checksum.
    pub closed spec fn spec_crc(self) -> u32 {
        self.crc
    }

    /// The chunk's fields, in the form a parse extracts them.
    pub open spec fn spec_fields(self) -> ChunkFields {
        ChunkFields {
            length: self.spec_length(),
            tag: self.spec_chunk_type(),
            data: self.spec_data(),
            crc: self.spec_crc(),
        }
    }

    /// The structural invariants: the length counts the payload bytes, the
    /// checksum covers the type and payload bytes, and the tag is valid.
    pub open spec fn wf(self) -> bool {
        &&& self.spec_length() == self.spec_data().len()
        &&& self.spec_crc() == crc32_of(self.spec_chunk_type() + self.spec_data())
        &&& tag_valid(self.spec_chunk_type())
    }

    /// The wire serialization: big-endian length, 4 type bytes, payload,
    /// big-endian checksum.
    pub open spec fn spec_as_bytes(self) -> Seq<u8> {
        spec_u32_to_be_bytes(self.spec_length()) + self.spec_chunk_type() + self.spec_data()
            + spec_u32_to_be_bytes(self.spec_crc())
    }

    /// Builds a chunk from a valid type tag and any payload, empty included.
    /// The length is the payload's byte count and the checksum is computed
    /// over the type and payload bytes, so the result is well-formed.
    pub fn new(chunk_type: ChunkType, data: &[u8]) -> (r: Chunk)
        requires
            chunk_type.wf(),
            data@.len() <= u32::MAX,
        ensures
            r.wf(),
            r.spec_chunk_type() == chunk_type@,
            r.spec_data() == data@,
            r.spec_length() == data@.len(),
            r.spec_crc() == crc32_of(chunk_type@ + data@),
    {
        let tb = chunk_type.bytes();
        let mut buf: Vec<u8> = Vec::new();
        buf.extend_from_slice(tb.as_slice());
        buf.extend_from_slice(data);
        proof {
            assert(buf@ =~= chunk_type@ + data@);
        }
        let crc = crc32_iso_hdlc(&buf);
        let payload = vstd::slice::slice_to_vec(data);
        let length = data.len() as u32;
        Chunk { chunk_type, data: payload, length, crc }
    }

    /// The declared payload length.
    pub fn length(&self) -> (r: u32)
        ensures
            r == self.spec_length(),
    {
        self.length
    }

    /// The chunk's type tag.
    pub fn chunk_type(&self) -> (r: &ChunkType)
        ensures
            r@ == self.spec_chunk_type(),
    {
        &self.chunk_type
    }

    /// The payload bytes.
    pub fn data(&self) -> (r: &[u8])
        ensures
            r@ == self.spec_data(),
    {
        self.data.as_slice()
    }

    /// The stored checksum.
    pub fn crc(&self) -> (r: u32)
        ensures
            r == self.spec_crc(),
    {
        self.crc
    }

    /// Serializes the chunk into its exact wire layout.
    pub fn as_bytes(&self) -> (r: Vec<u8>)
        ensures
            r@ == self.spec_as_bytes(),
    {
        let mut out: Vec<u8> = Vec::new();
        let len_bytes = u32_to_be_bytes(self.length);
        out.extend_from_slice(len_bytes.as_slice());
        let tb = self.chunk_type.bytes();
        out.extend_from_slice(tb.as_slice());
        out.extend_from_slice(self.data.as_slice());
        let crc_bytes = u32_to_be_bytes(self.crc);
        out.extend_from_slice(crc_bytes.as_slice());
        proof {
            assert(out@ =~= self.spec_as_bytes());
        }
        out
    }

    /// Parses a chunk from a byte buffer laid out as the wire format says.
    /// The result is exactly what `spec_decode` assigns to the buffer, and a
    /// successful parse is well-formed.
    pub fn decode(bytes: &[u8]) -> (r: Result<Chunk, ChunkError>)
        ensures
            r matches Ok(c) ==> spec_decode(bytes@) == Ok::<ChunkFields, ChunkError>(
                c.spec_fields(),
            ) && c.wf(),
            r matches Err(e) ==> spec_decode(bytes@) == Err::<ChunkFields, ChunkError>(e),
    {
        let n = bytes.len();
        if n < 4 {
            return Err(ChunkError::Truncated { needed: 4, available: n as u64 });
        }
        if n < 8 {
            return Err(ChunkError::Truncated { needed: 8, available: n as u64 });
        }
        let length = u32_from_be_bytes(bytes, 0);
        let tag_arr: [u8; 4] = [
            *vstd::slice::slice_index_get(bytes, 4),
            *vstd::slice::slice_index_get(bytes, 5),
            *vstd::slice::slice_index_get(bytes, 6),
            *vstd::slice::slice_index_get(bytes, 7),
        ];
        proof {
            assert(tag_arr@ =~= bytes@.subrange(4, 8));
        }
        let chunk_type = match ChunkType::from_bytes(tag_arr) {
            Ok(t) => t,
            Err(e) => {
                return Err(ChunkError::InvalidType(e));
            },
        };
        if ((n - 8) as u64) < (length as u64) {
            return Err(
                ChunkError::Truncated { needed: 8 + length as u64, available: n as u64 },
            );
        }
        let length_us = length as usize;
        if n - 8 - length_us < 4 {
            return Err(
                ChunkError::Truncated { needed: 12 + length as u64, available: n as u64 },
            );
        }
        let data_slice = vstd::slice::slice_subrange(bytes, 8, 8 + length_us);
        let stored = u32_from_be_bytes(bytes, 8 + length_us);
        let mut buf: Vec<u8> = Vec::new();
        buf.extend_from_slice(tag_arr.as_slice());
        buf.extend_from_slice(data_slice);
        proof {
            assert(buf@ =~= bytes@.subrange(4, 8) + bytes@.subrange(8, 8 + length as int));
        }
        let computed = crc32_iso_hdlc(&buf);
        if stored != computed {
            return Err(ChunkError::ChecksumMismatch { stored, computed });
        }
        let data = vstd::slice::slice_to_vec(data_slice);
        let c = Chunk { chunk_type, data, length, crc: stored };
        proof {
            assert(spec_decode(bytes@) == Ok::<ChunkFields, ChunkError>(c.spec_fields()));
        }
        Ok(c)
    }

    /// Views the payload as UTF-8 text. This is a convenience view: it
    /// succeeds exactly when the payload bytes are valid UTF-8, and then
    /// returns the text they encode; otherwise it fails with
    /// `NonTextPayload`.
    pub fn as_text(&self) -> (r: Result<String, ChunkError>)
        ensures
            r is Ok <==> valid_utf8(self.spec_data()),
            r matches Ok(s) ==> s@ == decode_utf8(self.spec_data()),
            r is Err ==> r == Err::<String, ChunkError>(ChunkError::NonTextPayload),
    {
        match utf8_to_string(&self.data) {
            Some(s) => Ok(s),
            None => Err(ChunkError::NonTextPayload),
        }
    }
}

/// Round trip: decoding the serialization of any well-formed chunk succeeds
/// and yields exactly its fields — length, type, payload and checksum.
pub proof fn lemma_round_trip(c: Chunk)
    requires
        c.wf(),
    ensures
        spec_decode(c.spec_as_bytes()) == Ok::<ChunkFields, ChunkError>(c.spec_fields()),
{
    let bytes = c.spec_as_bytes();
    let len = c.spec_length();
    let tag = c.spec_chunk_type();
    let data = c.spec_data();
    crate::wire::lemma_u32_be_bytes_roundtrip(len);
    crate::wire::lemma_u32_be_bytes_roundtrip(c.spec_crc());
    assert(bytes.len() == 12 + data.len());
    assert(bytes.subrange(0, 4) =~= spec_u32_to_be_bytes(len));
    assert(bytes.subrange(4, 8) =~= tag);
    assert(bytes.subrange(8, 8 + len as int) =~= data);
    assert(bytes.subrange(8 + len as int, 12 + len as int) =~= spec_u32_to_be_bytes(c.spec_crc()));
}

/// Parsing inverts serialization: any buffer that decodes successfully is,
/// up to the record's end, exactly the serialization of the decoded fields.
pub proof fn lemma_encode_of_decoded(bytes: Seq<u8>)
    requires
        spec_decode(bytes) is Ok,
    ensures
        ({
            let f = spec_decode(bytes)->Ok_0;
            spec_u32_to_be_bytes(f.length) + f.tag + f.data + spec_u32_to_be_bytes(f.crc)
                == bytes.subrange(0, 12 + f.length as int)
        }),
{
    let f = spec_decode(bytes)->Ok_0;
    crate::wire::lemma_u32_be_bytes_reencode(bytes.subrange(0, 4));
    crate::wire::lemma_u32_be_bytes_reencode(
        bytes.subrange(8 + f.length as int, 12 + f.length as int),
    );
    assert(spec_u32_to_be_bytes(f.length) + f.tag + f.data + spec_u32_to_be_bytes(f.crc)
        =~= bytes.subrange(0, 12 + f.length as int));
}

/// A corrupted checksum field is always detected: replacing the stored
/// checksum in a well-formed chunk's serialization with any other value
/// makes decoding fail with `ChecksumMismatch`, reporting both values.
pub proof fn lemma_checksum_corruption_detected(c: Chunk, bad: u32)
    requires
        c.wf(),
        bad != c.spec_crc(),
    ensures
        spec_decode(
            spec_u32_to_be_bytes(c.spec_length()) + c.spec_chunk_type() + c.spec_data()
                + spec_u32_to_be_bytes(bad),
        ) == Err::<ChunkFields, ChunkError>(
            ChunkError::ChecksumMismatch { stored: bad, computed: c.spec_crc() },
        ),
{
    let bytes = spec_u32_to_be_bytes(c.spec_length()) + c.spec_chunk_type() + c.spec_data()
        + spec_u32_to_be_bytes(bad);
    let len = c.spec_length();
    let tag = c.spec_chunk_type();
    let data = c.spec_data();
    crate::wire::lemma_u32_be_bytes_roundtrip(len);
    crate::wire::lemma_u32_be_bytes_roundtrip(bad);
    assert(bytes.len() == 12 + data.len());
    assert(bytes.subrange(0, 4) =~= spec_u32_to_be_bytes(len));
    assert(bytes.subrange(4, 8) =~= tag);
    assert(bytes.subrange(8, 8 + len as int) =~= data);
    assert(bytes.subrange(8 + len as int, 12 + len as int) =~= spec_u32_to_be_bytes(bad));
}

} // verus!
