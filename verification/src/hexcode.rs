//! Lower-case hexadecimal text of a byte string.

use vstd::prelude::*;

verus! {

/// The sixteen lower-case hexadecimal digits, by value.
pub open spec fn hex_digits() -> Seq<char> {
    seq!['0', '1', '2', '3', '4', '5', '6', '7', '8', '9', 'a', 'b', 'c', 'd', 'e', 'f']
}

/// The character at position `i` of the hexadecimal text of `bytes`: the high
/// half of a byte comes first, then its low half.
pub open spec fn hex_char_at(bytes: Seq<u8>, i: int) -> char {
    if i % 2 == 0 {
        hex_digits()[bytes[i / 2] as int / 16]
    } else {
        hex_digits()[bytes[i / 2] as int % 16]
    }
}

/// The hexadecimal text of `bytes`: two lower-case digits for each byte, in
/// the order of the bytes.
pub open spec fn lower_hex(bytes: Seq<u8>) -> Seq<char> {
    Seq::new(2 * bytes.len(), |i: int| hex_char_at(bytes, i))
}

/// Largest number of bytes whose hexadecimal text still fits a `String` on
/// every machine.
pub const MAX_ENCODED_BYTES: usize = 0x3fff_ffff;

/// Calls `hex::encode`, which writes each byte as two lower-case hexadecimal
/// digits, the high half first. The contract states that text in full; it is
/// taken on trust from the `hex` crate.
#[verifier::external_body]
fn encode(bytes: &[u8]) -> (text: String)
    requires
        bytes@.len() <= MAX_ENCODED_BYTES,
    ensures
        text@ == lower_hex(bytes@),
{
    hex::encode(bytes)
}

/// The lower-case hexadecimal text of `bytes`: twice as many characters as
/// there are bytes.
pub fn hex_text(bytes: &[u8]) -> (text: String)
    requires
        bytes@.len() <= MAX_ENCODED_BYTES,
    ensures
        text@ == lower_hex(bytes@),
        text@.len() == 2 * bytes@.len(),
{
    encode(bytes)
}

/// A hexadecimal digit determines its value.
proof fn lemma_hex_digit_injective(a: int, b: int)
    requires
        0 <= a < 16,
        0 <= b < 16,
        hex_digits()[a] == hex_digits()[b],
    ensures
        a == b,
{
}

/// Two byte strings with the same hexadecimal text are the same byte string.
pub proof fn lemma_lower_hex_injective(a: Seq<u8>, b: Seq<u8>)
    requires
        lower_hex(a) == lower_hex(b),
    ensures
        a == b,
{
    assert(lower_hex(a).len() == 2 * a.len());
    assert forall|k: int| 0 <= k < a.len() implies a[k] == b[k] by {
        let x = a[k] as int;
        let y = b[k] as int;
        assert(lower_hex(a)[2 * k] == hex_char_at(a, 2 * k));
        assert(lower_hex(a)[2 * k + 1] == hex_char_at(a, 2 * k + 1));
        lemma_hex_digit_injective(x / 16, y / 16);
        lemma_hex_digit_injective(x % 16, y % 16);
    }
}

} // verus!
