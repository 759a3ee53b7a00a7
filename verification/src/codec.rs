//! The body decoder: UTF-8 when the bytes decode as UTF-8, Latin-1
//! otherwise. The decoder is infallible — every byte buffer yields a string.

use vstd::prelude::*;
use vstd::utf8::{valid_utf8, decode_utf8};

verus! {

/// Each byte read as a Latin-1 code point: the byte value is the Unicode
/// scalar of the character.
pub open spec fn latin1_chars(b: Seq<u8>) -> Seq<char> {
    b.map(|_i: int, x: u8| x as char)
}

/// Relies on `String::from_utf8`: it succeeds exactly on valid UTF-8, and
/// the returned string then holds exactly the given bytes, whose character
/// sequence is their UTF-8 decoding.
#[verifier::external_body]
fn utf8_string(b: &[u8]) -> (r: Option<String>)
    ensures
        r is Some <==> valid_utf8(b@),
        (r matches Some(s) ==> s@ == decode_utf8(b@)),
{
    String::from_utf8(b.to_vec()).ok()
}

/// Relies on `String::push`: it appends exactly the given character.
#[verifier::external_body]
fn push_char(s: &mut String, c: char)
    ensures
        final(s)@ == old(s)@.push(c),
{
    s.push(c);
}

/// Decodes a response body for printing: as UTF-8 when the bytes are valid
/// UTF-8, otherwise byte for byte as Latin-1.
pub fn decode_bytes(content: &[u8]) -> (r: String)
    ensures
        valid_utf8(content@) ==> r@ == decode_utf8(content@),
        !valid_utf8(content@) ==> r@ == latin1_chars(content@),
{
    match utf8_string(content) {
        Some(s) => s,
        None => {
            let mut out = String::new();
            let mut i: usize = 0;
            while i < content.len()
                invariant
                    0 <= i <= content@.len(),
                    out@ == latin1_chars(content@.take(i as int)),
                decreases content@.len() - i,
            {
                let b = content[i];
                push_char(&mut out, b as char);
                proof {
                    assert(latin1_chars(content@.take(i + 1)) =~= latin1_chars(
                        content@.take(i as int),
                    ).push(content@[i as int] as char));
                }
                i += 1;
            }
            proof {
                assert(content@.take(i as int) =~= content@);
            }
            out
        },
    }
}

/// The decoded text has one character per UTF-8 scalar of valid input, and
/// one character per byte of any other input.
pub proof fn lemma_decode_len(b: Seq<u8>, r: Seq<char>)
    requires
        valid_utf8(b) ==> r == decode_utf8(b),
        !valid_utf8(b) ==> r == latin1_chars(b),
    ensures
        valid_utf8(b) ==> r.len() == decode_utf8(b).len(),
        !valid_utf8(b) ==> r.len() == b.len(),
{
}

} // verus!
