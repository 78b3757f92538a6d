//! The message to sign, as the user names it: hex digits stand for the
//! bytes they encode, any other text for its own bytes.

use vstd::prelude::*;
use vstd::string::*;

verus! {

/// The value of the hex digit `c`, upper or lower case.
pub open spec fn hex_digit(c: u8) -> Option<u8> {
    if 0x30 <= c <= 0x39 {
        Some((c - 0x30) as u8)
    } else if 0x61 <= c <= 0x66 {
        Some((c - 0x61 + 10) as u8)
    } else if 0x41 <= c <= 0x46 {
        Some((c - 0x41 + 10) as u8)
    } else {
        None
    }
}

/// Whether `text` is an even number of hex digits.
pub open spec fn is_hex(text: Seq<u8>) -> bool {
    &&& text.len() % 2 == 0
    &&& forall|i: int| 0 <= i < text.len() ==> (#[trigger] hex_digit(text[i])) is Some
}

/// The bytes that the hex digits of `text` encode, two digits to a byte,
/// the high digit first.
pub open spec fn hex_bytes(text: Seq<u8>) -> Seq<u8> {
    Seq::new(
        text.len() / 2,
        |i: int| (hex_digit(text[2 * i]).unwrap() * 16 + hex_digit(text[2 * i + 1]).unwrap()) as u8,
    )
}

/// The bytes to sign for the message that the user wrote as `text`.
pub open spec fn signed_bytes(text: Seq<u8>) -> Seq<u8> {
    if is_hex(text) {
        hex_bytes(text)
    } else {
        text
    }
}

/// `hex::decode` on a byte slice, with its error dropped. The contract
/// states what the crate documents and its source shows: the call succeeds
/// exactly on an even number of digits `0-9`, `a-f`, `A-F`, and each pair
/// of digits then gives one byte, the first digit being the high half.
#[verifier::external_body]
fn hex_decode(text: &[u8]) -> (bytes: Option<Vec<u8>>)
    ensures
        bytes is Some <==> is_hex(text@),
        bytes is Some ==> bytes.unwrap()@ == hex_bytes(text@),
{
    hex::decode(text).ok()
}

/// The bytes to sign for the message `text`: where `text` is made of hex
/// digits, the bytes that they encode; otherwise the bytes of `text` itself.
pub fn message_bytes(text: &str) -> (bytes: Vec<u8>)
    ensures
        bytes@ == signed_bytes(text.spec_bytes()),
{
    match hex_decode(text.as_bytes()) {
        Some(bytes) => bytes,
        None => text.as_bytes_vec(),
    }
}

} // verus!
