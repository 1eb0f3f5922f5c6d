//! Digests, by which the gateway names and compares what it does not show.
use crate::ids;
use crate::text;
use vstd::prelude::*;

verus! {

/// The SHA-256 digest of bytes, in small hexadecimal digits.
pub uninterp spec fn sha256_hex(data: Seq<u8>) -> Seq<char>;

/// `sha2::Sha256::digest`, displayed in small hexadecimal digits: 32 bytes of two
/// digits each. The digest itself is named, not stated.
#[verifier::external_body]
fn sha256_text(data: &[u8]) -> (r: String)
    ensures
        r@ == sha256_hex(data@),
        r@.len() == 64,
        forall|i: int| 0 <= i < 64 ==> ids::is_hex(#[trigger] r@[i]),
{
    format!("{:x}", <sha2::Sha256 as sha2::Digest>::digest(data))
}

/// The first `n` digits of the digest of `data`.
pub fn short_digest(data: &[u8], n: usize) -> (r: String)
    requires
        n <= 64,
    ensures
        r@ == sha256_hex(data@).take(n as int),
        r@.len() == n,
{
    let digest = sha256_text(data);
    let r = text::text_between(&text::chars_of(digest.as_str()), 0, n);
    assert(r@ == sha256_hex(data@).take(n as int));
    r
}

/// Appends the bytes of a text.
pub fn push_bytes(out: &mut Vec<u8>, s: &str)
    ensures
        final(out)@ == old(out)@ + vstd::utf8::encode_utf8(s@),
{
    let bytes = s.as_bytes();
    let mut i: usize = 0;
    while i < bytes.len()
        invariant
            bytes@ == vstd::utf8::encode_utf8(s@),
            i <= bytes@.len(),
            out@ == old(out)@ + bytes@.take(i as int),
        decreases bytes@.len() - i,
    {
        out.push(bytes[i]);
        i = i + 1;
        assert(bytes@.take(i as int) == bytes@.take(i - 1).push(bytes@[i - 1]));
    }
    assert(bytes@.take(i as int) == bytes@);
}

/// The first digits of the digest of a text.
pub open spec fn fingerprint(s: Seq<char>) -> Seq<char> {
    sha256_hex(vstd::utf8::encode_utf8(s)).take(12)
}

/// A short text that tells whether a secret has changed, without showing it.
pub fn short_fingerprint(s: &str) -> (r: String)
    ensures
        r@ == fingerprint(s@),
{
    short_digest(s.as_bytes(), 12)
}

} // verus!
