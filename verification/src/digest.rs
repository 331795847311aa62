//! Content checksums: SHA-256 behind a trusted wrapper, hex encoding proved.

use vstd::prelude::*;

verus! {

/// The SHA-256 digest of a byte sequence. The digest is a pure function of
/// the input bytes; no further properties of it are assumed.
pub uninterp spec fn sha256_of(bytes: Seq<u8>) -> Seq<u8>;

/// Relies on `sha2::Sha256` (`Digest::new`, `Digest::update`,
/// `Digest::finalize`): the digest depends on the input bytes alone and is
/// 256 bits (32 bytes) long.
#[verifier::external_body]
fn sha256_digest(bytes: &Vec<u8>) -> (r: Vec<u8>)
    ensures
        r@ == sha256_of(bytes@),
        r@.len() == 32,
{
    let mut hasher = <sha2::Sha256 as sha2::Digest>::new();
    sha2::Digest::update(&mut hasher, bytes.as_slice());
    sha2::Digest::finalize(hasher).to_vec()
}

/// Relies on `alloc::string::String::push`: appends the given character to
/// the end of the string.
pub assume_specification[ String::push ](s: &mut String, ch: char)
    ensures
        final(s)@ == old(s)@.push(ch),
;

/// The lower-case hex character for a value below 16.
pub open spec fn spec_hex_digit(n: int) -> char
    recommends
        0 <= n < 16,
{
    if n < 10 {
        ((n + 48) as u8) as char
    } else {
        ((n + 87) as u8) as char
    }
}

/// The lower-case hex encoding of a byte sequence, two digits per byte.
pub open spec fn spec_hex_of(b: Seq<u8>) -> Seq<char>
    decreases b.len(),
{
    if b.len() == 0 {
        Seq::empty()
    } else {
        spec_hex_of(b.drop_last())
            .push(spec_hex_digit(b.last() as int / 16))
            .push(spec_hex_digit(b.last() as int % 16))
    }
}

/// The hex-encoded SHA-256 checksum of a byte sequence, as the cache key.
pub open spec fn spec_checksum_of(bytes: Seq<u8>) -> Seq<char> {
    spec_hex_of(sha256_of(bytes))
}

/// The lower-case hex character for a value below 16.
fn hex_digit(n: u8) -> (c: char)
    requires
        n < 16,
    ensures
        c == spec_hex_digit(n as int),
{
    if n < 10 {
        (n + 48) as char
    } else {
        (n + 87) as char
    }
}

/// Lower-case hex encoding of a byte vector.
pub fn hex_of(b: &Vec<u8>) -> (r: String)
    ensures
        r@ == spec_hex_of(b@),
{
    let mut out = String::new();
    let mut i: usize = 0;
    while i < b.len()
        invariant
            i <= b@.len(),
            out@ == spec_hex_of(b@.take(i as int)),
        decreases b@.len() - i,
    {
        let byte = b[i];
        out.push(hex_digit(byte / 16));
        out.push(hex_digit(byte % 16));
        proof {
            assert(b@.take(i + 1).drop_last() =~= b@.take(i as int));
            assert(b@.take(i + 1).last() == b@[i as int]);
        }
        i += 1;
    }
    proof {
        assert(b@.take(b@.len() as int) =~= b@);
    }
    out
}

/// The hex-encoded SHA-256 checksum of a byte vector: the key under which
/// compiled artifacts are cached.
pub fn checksum_of(bytes: &Vec<u8>) -> (r: String)
    ensures
        r@ == spec_checksum_of(bytes@),
{
    let digest = sha256_digest(bytes);
    hex_of(&digest)
}

} // verus!
