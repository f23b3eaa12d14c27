//! The answer to the server's authentication challenge:
//! base64(sha256(shared_secret + salt)), standard alphabet without
//! padding. The hash and the encoding come from outside crates behind
//! trusted wrappers; putting the pieces together is verified.

use vstd::prelude::*;
use vstd::string::StringSliceAdditionalSpecFns;
use base64::Engine;
use sha2::Digest;

verus! {

/// The SHA-256 digest of a byte sequence. Stating the algorithm here
/// would neither run nor be checkable; the name stands for what sha2
/// computes.
pub uninterp spec fn sha256_of(bytes: Seq<u8>) -> Seq<u8>;

/// The base64 encoding (standard alphabet, no padding) of a byte
/// sequence, as base64's STANDARD_NO_PAD engine computes it.
pub uninterp spec fn base64_nopad_of(bytes: Seq<u8>) -> Seq<char>;

/// Relies on sha2's `Sha256` (via `Digest::digest`): the digest depends on
/// the input bytes alone and is 32 bytes long.
#[verifier::external_body]
fn sha256(bytes: &Vec<u8>) -> (r: Vec<u8>)
    ensures
        r@ == sha256_of(bytes@),
        r@.len() == 32,
{
    sha2::Sha256::digest(bytes).as_slice().to_vec()
}

/// Relies on base64's `STANDARD_NO_PAD` engine: standard alphabet, no
/// padding; the encoding depends on the input bytes alone.
#[verifier::external_body]
fn base64_nopad(bytes: &Vec<u8>) -> (r: String)
    ensures
        r@ == base64_nopad_of(bytes@),
{
    base64::engine::general_purpose::STANDARD_NO_PAD.encode(bytes)
}

/// Appends the UTF-8 bytes of `s` to `out`.
fn push_str_bytes(out: &mut Vec<u8>, s: &str)
    ensures
        final(out)@ == old(out)@ + s.spec_bytes(),
{
    let bytes = s.as_bytes();
    let mut i: usize = 0;
    while i < bytes.len()
        invariant
            i <= bytes@.len(),
            bytes@ == s.spec_bytes(),
            out@ == old(out)@ + bytes@.take(i as int),
        decreases bytes.len() - i,
    {
        out.push(bytes[i]);
        proof {
            assert(bytes@.take(i + 1) == bytes@.take(i as int).push(bytes@[i as int]));
            assert(out@ =~= old(out)@ + bytes@.take(i + 1));
        }
        i += 1;
    }
    proof {
        assert(bytes@.take(bytes@.len() as int) =~= bytes@);
    }
}

/// The response a connection sends after AuthChallenge{salt}:
/// base64(sha256(secret + salt)) over the UTF-8 bytes of the two strings.
pub fn auth_response(secret: &str, salt: &str) -> (r: String)
    ensures
        r@ == base64_nopad_of(sha256_of(secret.spec_bytes() + salt.spec_bytes())),
{
    let mut salted: Vec<u8> = Vec::new();
    push_str_bytes(&mut salted, secret);
    push_str_bytes(&mut salted, salt);
    proof {
        assert(salted@ =~= secret.spec_bytes() + salt.spec_bytes());
    }
    let digest = sha256(&salted);
    base64_nopad(&digest)
}

} // verus!
