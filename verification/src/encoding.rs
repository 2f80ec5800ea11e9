//! Bytes as text.

use vstd::prelude::*;

verus! {

/// The sixty-four characters that base64 is written in.
pub open spec fn base64_char(n: int) -> char {
    if n < 26 {
        (('A' as u32) + n) as char
    } else if n < 52 {
        (('a' as u32) + n - 26) as char
    } else if n < 62 {
        (('0' as u32) + n - 52) as char
    } else if n == 62 {
        '+'
    } else {
        '/'
    }
}

/// The byte at a position, and zero after the end.
pub open spec fn byte_at(b: Seq<u8>, i: int) -> int {
    if i < b.len() {
        b[i] as int
    } else {
        0
    }
}

/// Bytes in base64: four characters for every three bytes, the last four filled up with
/// equals signs.
pub open spec fn base64_text(b: Seq<u8>) -> Seq<char> {
    Seq::new(
        ((b.len() + 2) / 3 * 4) as nat,
        |i: int|
            {
                let k = i / 4 * 3;
                let n = byte_at(b, k) * 65536 + byte_at(b, k + 1) * 256 + byte_at(b, k + 2);
                if i % 4 == 0 {
                    base64_char(n / 262144)
                } else if i % 4 == 1 {
                    base64_char(n / 4096 % 64)
                } else if i % 4 == 2 {
                    if k + 1 < b.len() {
                        base64_char(n / 64 % 64)
                    } else {
                        '='
                    }
                } else {
                    if k + 2 < b.len() {
                        base64_char(n % 64)
                    } else {
                        '='
                    }
                }
            },
    )
}

/// `Engine::encode` of the standard engine: base64 with padding.
#[verifier::external_body]
pub(crate) fn to_base64(bytes: &[u8]) -> (r: String)
    ensures
        r@ == base64_text(bytes@),
{
    base64::Engine::encode(&base64::engine::general_purpose::STANDARD, bytes)
}

/// `Engine::decode` of the standard engine: the bytes whose base64 the text is, where it
/// is that of any. Padding has to be there and unused bits have to be zero.
#[verifier::external_body]
pub(crate) fn from_base64(s: &str) -> (r: Option<Vec<u8>>)
    ensures
        forall|b: Seq<u8>|
            (r matches Some(v) && v@ == b) <==> s@ == #[trigger] base64_text(b),
{
    base64::Engine::decode(&base64::engine::general_purpose::STANDARD, s).ok()
}

} // verus!
