//! Decoding payload bytes as UTF-8 text, and the fact that ASCII bytes
//! always decode to themselves.

use vstd::prelude::*;
use vstd::utf8::decode_utf8;
use vstd::utf8::valid_utf8;

verus! {

/// Relies on std's `String::from_utf8`: it succeeds exactly when the bytes
/// are valid UTF-8, and then returns the text those bytes encode.
#[verifier::external_body]
pub(crate) fn utf8_to_string(bytes: &Vec<u8>) -> (r: Option<String>)
    ensures
        r is Some <==> valid_utf8(bytes@),
        r matches Some(s) ==> s@ == decode_utf8(bytes@),
{
    match String::from_utf8(bytes.clone()) {
        Ok(s) => Some(s),
        Err(_) => None,
    }
}

/// A sequence of ASCII bytes is valid UTF-8 and decodes to the very same
/// bytes, each read as one character.
pub proof fn lemma_ascii_bytes_decode(bytes: Seq<u8>)
    requires
        forall|i: int| 0 <= i < bytes.len() ==> bytes[i] < 0x80,
    ensures
        valid_utf8(bytes),
        decode_utf8(bytes) == bytes.map_values(|b: u8| b as char),
    decreases bytes.len(),
{
    let mapped = bytes.map_values(|b: u8| b as char);
    if bytes.len() == 0 {
        assert(decode_utf8(bytes) =~= mapped);
    } else {
        let b0 = bytes[0];
        assert(vstd::utf8::is_leading_byte_width_1(b0));
        assert((b0 & 0x7f) as u32 == b0 as u32) by (bit_vector)
            requires
                b0 < 0x80,
        ;
        assert(vstd::utf8::valid_first_scalar(bytes));
        assert(vstd::utf8::length_of_first_scalar(bytes) == 1);
        let rest = vstd::utf8::pop_first_scalar(bytes);
        assert(rest =~= bytes.drop_first());
        assert(forall|i: int| 0 <= i < rest.len() ==> rest[i] < 0x80);
        lemma_ascii_bytes_decode(rest);
        assert(valid_utf8(bytes));
        assert(vstd::utf8::decode_first_scalar(bytes) == b0 as u32);
        assert((b0 as u32) as char == b0 as char) by {
            vstd::utf8::char_u32_cast(b0 as char, b0 as u32);
        }
        assert forall|i: int| 0 <= i < bytes.len() implies decode_utf8(bytes)[i] == mapped[i] by {
            if i > 0 {
                assert(decode_utf8(rest)[i - 1] == rest.map_values(|b: u8| b as char)[i - 1]);
            }
        }
        assert(decode_utf8(bytes) =~= mapped);
    }
}

} // verus!
