//! SHA-256 digests.
use crate::cap_calls::{hex, hex_text};
use crate::text::{digit_char, hex_byte};
use sha2::Digest;
use vstd::prelude::*;

verus! {

/// The SHA-256 digest of a byte sequence.
pub uninterp spec fn sha256(data: Seq<u8>) -> Seq<u8>;

/// Calls `sha2::Sha256::digest`: the digest of the bytes, thirty-two bytes long.
#[verifier::external_body]
pub(crate) fn sha256_bytes(data: &[u8]) -> (d: Vec<u8>)
    ensures
        d@ == sha256(data@),
        d@.len() == 32,
{
    sha2::Sha256::digest(data).to_vec()
}

/// The SHA-256 digest of the bytes, as lower-case hexadecimal digits.
pub fn sha256_hex(data: &[u8]) -> (r: String)
    ensures
        r@ == hex_text(sha256(data@)),
{
    hex(sha256_bytes(data).as_slice())
}

/// The digits of bytes are two for each.
pub proof fn hex_length(b: Seq<u8>)
    ensures
        hex_text(b).len() == 2 * b.len(),
    decreases b.len(),
{
    if b.len() > 0 {
        hex_length(b.drop_last());
    }
}

/// Different byte sequences have different digits.
pub proof fn hex_is_injective(a: Seq<u8>, b: Seq<u8>)
    requires
        hex_text(a) == hex_text(b),
    ensures
        a == b,
    decreases a.len(),
{
    hex_length(a);
    hex_length(b);
    if a.len() > 0 {
        let x = hex_text(a.drop_last());
        let y = hex_text(b.drop_last());
        hex_length(a.drop_last());
        hex_length(b.drop_last());
        assert((x + hex_byte(a.last())).take(x.len() as int) =~= x);
        assert((y + hex_byte(b.last())).take(y.len() as int) =~= y);
        hex_is_injective(a.drop_last(), b.drop_last());
        let s = hex_text(a);
        assert(s[s.len() - 2] == hex_byte(a.last())[0]);
        assert(s[s.len() - 1] == hex_byte(a.last())[1]);
        assert(hex_text(b)[s.len() - 2] == hex_byte(b.last())[0]);
        assert(hex_text(b)[s.len() - 1] == hex_byte(b.last())[1]);
        digit_is_injective((a.last() / 16) as int, (b.last() / 16) as int);
        digit_is_injective((a.last() % 16) as int, (b.last() % 16) as int);
        assert(a.drop_last().push(a.last()) =~= a);
        assert(b.drop_last().push(b.last()) =~= b);
    } else {
        assert(a =~= b);
    }
}

proof fn digit_is_injective(a: int, b: int)
    requires
        0 <= a < 16,
        0 <= b < 16,
        digit_char(a) == digit_char(b),
    ensures
        a == b,
{
}

} // verus!
