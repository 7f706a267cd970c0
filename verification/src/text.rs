//! Bytes as text.

use vstd::prelude::*;

verus! {

/// The sixteen hexadecimal digits, in lower case.
pub open spec fn hex_digits() -> Seq<char> {
    seq!['0', '1', '2', '3', '4', '5', '6', '7', '8', '9', 'a', 'b', 'c', 'd', 'e', 'f']
}

/// The bytes in hexadecimal: two digits for each byte, the high half first.
pub open spec fn hex_of(bytes: Seq<u8>) -> Seq<char> {
    Seq::new(
        2 * bytes.len(),
        |i: int|
            if i % 2 == 0 {
                hex_digits()[bytes[i / 2] as int / 16]
            } else {
                hex_digits()[bytes[i / 2] as int % 16]
            },
    )
}

/// The bytes in hexadecimal, by `hex::encode`: two lower-case digits for each
/// byte, the high half first.
#[verifier::external_body]
pub(crate) fn hex_encode(bytes: &Vec<u8>) -> (text: String)
    ensures
        text@ == hex_of(bytes@),
{
    hex::encode(bytes)
}

} // verus!
