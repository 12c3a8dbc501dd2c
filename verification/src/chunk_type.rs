//! The 4-byte type tag of a chunk. Every byte must be an ASCII letter, and
//! the letter case of each byte encodes one boolean property of the chunk.

use vstd::prelude::*;
use vstd::utf8::encode_utf8;

verus! {

/// The byte is an ASCII uppercase letter (`A`-`Z`).
pub open spec fn byte_is_uppercase(b: u8) -> bool {
    0x41 <= b <= 0x5a
}

/// The byte is an ASCII lowercase letter (`a`-`z`).
pub open spec fn byte_is_lowercase(b: u8) -> bool {
    0x61 <= b <= 0x7a
}

/// The byte is an ASCII letter of either case.
pub open spec fn byte_is_alphabetic(b: u8) -> bool {
    byte_is_uppercase(b) || byte_is_lowercase(b)
}

/// The character is an ASCII letter of either case.
pub open spec fn char_is_alphabetic(c: char) -> bool {
    (0x41 <= c as u32 && c as u32 <= 0x5a) || (0x61 <= c as u32 && c as u32 <= 0x7a)
}

/// Every character of the text is an ASCII letter.
pub open spec fn text_alphabetic(s: Seq<char>) -> bool {
    forall|i: int| 0 <= i < s.len() ==> char_is_alphabetic(#[trigger] s[i])
}

/// A well-formed type tag code: exactly 4 bytes, each an ASCII letter.
pub open spec fn tag_valid(s: Seq<u8>) -> bool {
    s.len() == 4 && (forall|i: int| 0 <= i < 4 ==> byte_is_alphabetic(#[trigger] s[i]))
}

/// Why a byte buffer or a text string was rejected as a type tag.
#[derive(Debug, Clone, Copy, PartialEq, Eq)]
pub enum ChunkTypeError {
    /// Some byte or character is not an ASCII letter.
    NonAlphabeticCharacters,
    /// The text is not exactly 4 characters long; carries the length found.
    InvalidStringLength(usize),
}

/// A chunk's 4-byte type tag. Constructed only from all-alphabetic input;
/// its view is the 4 raw code bytes.
#[derive(Debug, Clone, Copy)]
pub struct ChunkType {
    code: [u8; 4],
}

impl View for ChunkType {
    type V = Seq<u8>;

    closed spec fn view(&self) -> Seq<u8> {
        self.code@
    }
}

impl PartialEq for ChunkType {
    fn eq(&self, other: &ChunkType) -> (r: bool) {
        let r = self.code[0] == other.code[0] && self.code[1] == other.code[1] && self.code[2]
            == other.code[2] && self.code[3] == other.code[3];
        proof {
            if r {
                assert(self.code@ =~= other.code@);
            }
        }
        r
    }
}

impl Eq for ChunkType {

}

impl vstd::std_specs::cmp::PartialEqSpecImpl for ChunkType {
    open spec fn obeys_eq_spec() -> bool {
        true
    }

    open spec fn eq_spec(&self, other: &ChunkType) -> bool {
        self@ == other@
    }
}

/// Whether the byte is an ASCII letter, decided at run time.
fn byte_alphabetic(b: u8) -> (r: bool)
    ensures
        r == byte_is_alphabetic(b),
{
    (0x41 <= b && b <= 0x5a) || (0x61 <= b && b <= 0x7a)
}

impl ChunkType {
    /// The tag's code bytes are 4 ASCII letters.
    pub open spec fn wf(self) -> bool {
        tag_valid(self@)
    }

    /// Builds a type tag from 4 raw bytes; succeeds exactly when every byte
    /// is an ASCII letter.
    pub fn from_bytes(value: [u8; 4]) -> (r: Result<ChunkType, ChunkTypeError>)
        ensures
            r is Ok <==> tag_valid(value@),
            r matches Ok(t) ==> t@ == value@ && t.wf(),
            r is Err ==> r == Err::<ChunkType, ChunkTypeError>(
                ChunkTypeError::NonAlphabeticCharacters,
            ),
    {
        let mut i: usize = 0;
        while i < 4
            invariant
                0 <= i <= 4,
                forall|j: int| 0 <= j < i ==> byte_is_alphabetic(#[trigger] value@[j]),
            decreases 4 - i,
        {
            if !byte_alphabetic(*vstd::array::array_index_get(&value, i)) {
                return Err(ChunkTypeError::NonAlphabeticCharacters);
            }
            i += 1;
        }
        Ok(ChunkType { code: value })
    }

    /// Builds a type tag from text. The alphabetic check comes first and the
    /// length check second, so a string that fails both reports
    /// `NonAlphabeticCharacters`, never `InvalidStringLength`.
    pub fn from_str(s: &str) -> (r: Result<ChunkType, ChunkTypeError>)
        ensures
            r is Ok <==> text_alphabetic(s@) && s@.len() == 4,
            r matches Ok(t) ==> t@ == encode_utf8(s@) && t.wf() && (forall|i: int|
                0 <= i < 4 ==> #[trigger] (t@[i]) as u32 == s@[i] as u32),
            !text_alphabetic(s@) ==> r == Err::<ChunkType, ChunkTypeError>(
                ChunkTypeError::NonAlphabeticCharacters,
            ),
            text_alphabetic(s@) && s@.len() != 4 ==> r == Err::<ChunkType, ChunkTypeError>(
                ChunkTypeError::InvalidStringLength(s@.len() as usize),
            ),
    {
        let bytes = s.as_bytes();
        let n = bytes.len();
        let mut i: usize = 0;
        while i < n
            invariant
                0 <= i <= n,
                n == bytes@.len(),
                bytes@ == encode_utf8(s@),
                forall|j: int| 0 <= j < i ==> byte_is_alphabetic(#[trigger] bytes@[j]),
            decreases n - i,
        {
            if !byte_alphabetic(*vstd::slice::slice_index_get(bytes, i)) {
                proof {
                    if text_alphabetic(s@) {
                        lemma_alpha_text_encodes_alpha_bytes(s@);
                    }
                }
                return Err(ChunkTypeError::NonAlphabeticCharacters);
            }
            i += 1;
        }
        proof {
            lemma_alpha_bytes_encode_alpha_text(s@);
        }
        if n != 4 {
            return Err(ChunkTypeError::InvalidStringLength(n));
        }
        let code: [u8; 4] = [
            *vstd::slice::slice_index_get(bytes, 0),
            *vstd::slice::slice_index_get(bytes, 1),
            *vstd::slice::slice_index_get(bytes, 2),
            *vstd::slice::slice_index_get(bytes, 3),
        ];
        proof {
            assert(code@ =~= encode_utf8(s@));
        }
        Ok(ChunkType { code })
    }

    /// The raw 4 code bytes.
    pub fn bytes(&self) -> (r: [u8; 4])
        ensures
            r@ == self@,
    {
        self.code
    }

    /// The chunk is critical (not ancillary): byte 0 is uppercase.
    pub fn is_critical(&self) -> (r: bool)
        ensures
            r == byte_is_uppercase(self@[0]),
    {
        let b = *vstd::array::array_index_get(&self.code, 0);
        0x41 <= b && b <= 0x5a
    }

    /// The chunk is public (not private): byte 1 is uppercase.
    pub fn is_public(&self) -> (r: bool)
        ensures
            r == byte_is_uppercase(self@[1]),
    {
        let b = *vstd::array::array_index_get(&self.code, 1);
        0x41 <= b && b <= 0x5a
    }

    /// The reserved bit is valid: byte 2 is uppercase.
    pub fn is_reserved_bit_valid(&self) -> (r: bool)
        ensures
            r == byte_is_uppercase(self@[2]),
    {
        let b = *vstd::array::array_index_get(&self.code, 2);
        0x41 <= b && b <= 0x5a
    }

    /// The chunk is safe to copy by editors: byte 3 is lowercase.
    pub fn is_safe_to_copy(&self) -> (r: bool)
        ensures
            r == byte_is_lowercase(self@[3]),
    {
        let b = *vstd::array::array_index_get(&self.code, 3);
        0x61 <= b && b <= 0x7a
    }

    /// Overall tag validity, which is exactly the reserved-bit check.
    pub fn is_valid(&self) -> (r: bool)
        ensures
            r == byte_is_uppercase(self@[2]),
    {
        self.is_reserved_bit_valid()
    }

    /// Renders the 4 code bytes as 4 characters of text; the alphabetic
    /// invariant guarantees that this always succeeds.
    pub fn to_text(&self) -> (r: String)
        requires
            self.wf(),
        ensures
            r@ == self@.map_values(|b: u8| b as char),
            r@.len() == 4,
    {
        let mut v: Vec<u8> = Vec::new();
        v.push(*vstd::array::array_index_get(&self.code, 0));
        v.push(*vstd::array::array_index_get(&self.code, 1));
        v.push(*vstd::array::array_index_get(&self.code, 2));
        v.push(*vstd::array::array_index_get(&self.code, 3));
        proof {
            assert(v@ =~= self@);
            crate::text::lemma_ascii_bytes_decode(v@);
        }
        match crate::text::utf8_to_string(&v) {
            Some(s) => s,
            None => vstd::pervasive::unreached(),
        }
    }
}

/// Text of ASCII letters encodes to bytes that are ASCII letters, one byte
/// per character.
proof fn lemma_alpha_text_encodes_alpha_bytes(s: Seq<char>)
    requires
        text_alphabetic(s),
    ensures
        encode_utf8(s).len() == s.len(),
        forall|i: int| 0 <= i < s.len() ==> #[trigger] (encode_utf8(s)[i]) as u32 == s[i] as u32,
        forall|i: int| 0 <= i < s.len() ==> byte_is_alphabetic(#[trigger] encode_utf8(s)[i]),
{
    assert forall|i: int| 0 <= i < s.len() implies '\0' <= #[trigger] s[i] <= '\u{7f}' by {
        assert(char_is_alphabetic(s[i]));
        assert(s[i] as u32 <= 0x7a);
        vstd::utf8::char_u32_cast(s[i], s[i] as u32);
        assert('\0' as u32 == 0 && '\u{7f}' as u32 == 0x7f);
    }
    assert(vstd::utf8::is_ascii_chars(s));
    vstd::utf8::is_ascii_chars_encode_utf8(s);
    assert forall|i: int| 0 <= i < s.len() implies byte_is_alphabetic(
        #[trigger] encode_utf8(s)[i],
    ) by {
        assert(encode_utf8(s)[i] == s[i] as u8);
        assert(char_is_alphabetic(s[i]));
    }
}

/// Bytes that are all ASCII letters can only be the encoding of text whose
/// characters are those letters.
proof fn lemma_alpha_bytes_encode_alpha_text(s: Seq<char>)
    requires
        forall|i: int| 0 <= i < encode_utf8(s).len() ==> byte_is_alphabetic(
            #[trigger] encode_utf8(s)[i],
        ),
    ensures
        s.len() == encode_utf8(s).len(),
        text_alphabetic(s),
        forall|i: int| 0 <= i < s.len() ==> #[trigger] (encode_utf8(s)[i]) as u32 == s[i] as u32,
{
    let bs = encode_utf8(s);
    assert(forall|i: int| 0 <= i < bs.len() ==> bs[i] < 0x80);
    crate::text::lemma_ascii_bytes_decode(bs);
    vstd::utf8::encode_utf8_decode_utf8(s);
    assert(s == bs.map_values(|b: u8| b as char));
    assert forall|i: int| 0 <= i < s.len() implies char_is_alphabetic(#[trigger] s[i]) by {
        assert(s[i] == bs[i] as char);
        assert(byte_is_alphabetic(bs[i]));
        vstd::utf8::char_u32_cast(bs[i] as char, bs[i] as u32);
    }
    assert forall|i: int| 0 <= i < s.len() implies #[trigger] (encode_utf8(s)[i]) as u32 == s[i]
        as u32 by {
        assert(s[i] == bs[i] as char);
        vstd::utf8::char_u32_cast(bs[i] as char, bs[i] as u32);
    }
}

} // verus!
