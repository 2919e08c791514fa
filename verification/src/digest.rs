//! The hash and hex-encoding primitives that the rest of the library builds on.

use vstd::prelude::*;
use sha2::Digest;

verus! {

/// The SHA-256 digest of a byte string, as computed by the `sha2` crate.
pub uninterp spec fn sha256_digest(data: Seq<u8>) -> Seq<u8>;

/// Trusted: calls `<sha2::Sha256 as sha2::Digest>::digest` on `data` and
/// returns its 32 output bytes. The contract claims only that the result is
/// the SHA-256 digest of exactly the bytes of `data` (a function of them
/// alone); SHA-256 itself is not stated.
#[verifier::external_body]
pub(crate) fn sha256(data: &[u8]) -> (out: [u8; 32])
    ensures
        out@ == sha256_digest(data@),
{
    sha2::Sha256::digest(data).into()
}

/// The lower-case hexadecimal digit for a value below 16.
pub open spec fn hex_digit(n: u8) -> char {
    if n < 10 {
        (('0' as u8) + n) as char
    } else {
        (('a' as u8) + n - 10) as char
    }
}

/// Lower-case hexadecimal encoding: two digits per byte, high nibble first.
pub open spec fn hex_lower(data: Seq<u8>) -> Seq<char>
    decreases data.len(),
{
    if data.len() == 0 {
        Seq::empty()
    } else {
        seq![hex_digit(data[0] / 16), hex_digit(data[0] % 16)] + hex_lower(data.drop_first())
    }
}

/// Trusted: calls `hex::encode` on `data`. The crate documents (and its
/// source shows) that each byte becomes two lower-case hexadecimal digits,
/// high nibble first, in the order of the input.
#[verifier::external_body]
pub(crate) fn hex_encode(data: &[u8]) -> (s: String)
    ensures
        s@ == hex_lower(data@),
{
    hex::encode(data)
}

/// Hex encoding writes two lower-case digits per byte, in the order of the
/// bytes: for byte `i`, position `2i` holds the digit of its high nibble and
/// position `2i + 1` the digit of its low nibble, both drawn from
/// "0123456789abcdef".
pub proof fn lemma_hex_lower_digits(data: Seq<u8>, i: int)
    requires
        0 <= i < data.len(),
    ensures
        hex_lower(data).len() == 2 * data.len(),
        hex_lower(data)[2 * i] == "0123456789abcdef"@[(data[i] / 16) as int],
        hex_lower(data)[2 * i + 1] == "0123456789abcdef"@[(data[i] % 16) as int],
    decreases data.len(),
{
    reveal_strlit("0123456789abcdef");
    lemma_hex_lower_len(data);
    let rest = data.drop_first();
    let head = seq![hex_digit(data[0] / 16), hex_digit(data[0] % 16)];
    assert(hex_lower(data) == head + hex_lower(rest));
    if i == 0 {
        assert(hex_lower(data)[0] == head[0]);
        assert(hex_lower(data)[1] == head[1]);
    } else {
        lemma_hex_lower_digits(rest, i - 1);
        lemma_hex_lower_len(rest);
        assert(hex_lower(data)[2 * i] == hex_lower(rest)[2 * (i - 1)]);
        assert(hex_lower(data)[2 * i + 1] == hex_lower(rest)[2 * (i - 1) + 1]);
    }
}

/// Hex encoding has exactly two characters per byte.
proof fn lemma_hex_lower_len(data: Seq<u8>)
    ensures
        hex_lower(data).len() == 2 * data.len(),
    decreases data.len(),
{
    if data.len() > 0 {
        lemma_hex_lower_len(data.drop_first());
    }
}

} // verus!
