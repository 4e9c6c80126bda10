//! Signature and identity checking.
//!
//! The cryptographic primitives — SHA-256, Keccak-256 and ECDSA
//! verification over secp256k1 — come from outside crates through narrow
//! trusted wrappers. Each digest or verdict is a pure function of the
//! input bytes, which is all the surrounding logic relies on.

use vstd::prelude::*;

verus! {

/// The SHA-256 digest of a byte sequence: 32 bytes, a function of the
/// input bytes alone.
pub uninterp spec fn sha256_of(b: Seq<u8>) -> Seq<u8>;

/// The Keccak-256 digest of a byte sequence: 32 bytes, a function of the
/// input bytes alone.
pub uninterp spec fn keccak256_of(b: Seq<u8>) -> Seq<u8>;

/// Whether the 64-byte `r || s` signature verifies over the 32-byte
/// digest under the 65-byte uncompressed SEC1 public key, in ECDSA over
/// secp256k1: a function of the three byte strings alone.
pub uninterp spec fn ecdsa_verifies(sig64: Seq<u8>, pubkey: Seq<u8>, digest: Seq<u8>) -> bool;

/// Relies on sha2's `Sha256::digest` (the `Digest` trait): a 32-byte
/// digest that depends on the input bytes alone.
#[verifier::external_body]
fn sha256(b: &[u8]) -> (r: [u8; 32])
    ensures
        r@ == sha256_of(b@),
        r@.len() == 32,
{
    <sha2::Sha256 as sha2::Digest>::digest(b).into()
}

/// Relies on tiny_keccak's `Keccak::v256` with `Hasher::update` and
/// `Hasher::finalize`: a 32-byte Keccak-256 digest that depends on the
/// input bytes alone.
#[verifier::external_body]
fn keccak256(b: &[u8]) -> (r: [u8; 32])
    ensures
        r@ == keccak256_of(b@),
        r@.len() == 32,
{
    let mut k = tiny_keccak::Keccak::v256();
    let mut out = [0u8; 32];
    tiny_keccak::Hasher::update(&mut k, b);
    tiny_keccak::Hasher::finalize(k, &mut out);
    out
}

/// Relies on k256's ECDSA stack, one parse-and-verify unit: the verdict
/// of `Signature::from_slice` on `sig64`, `VerifyingKey::from_sec1_bytes`
/// on `pubkey`, and `PrehashVerifier::verify_prehash` on `digest` depends
/// on the three byte strings alone; any parse or verification failure
/// yields `false`.
#[verifier::external_body]
fn ecdsa_verify(sig64: &[u8], pubkey: &[u8], digest: &[u8; 32]) -> (ok: bool)
    ensures
        ok == ecdsa_verifies(sig64@, pubkey@, digest@),
{
    let sig = match k256::ecdsa::Signature::from_slice(sig64) {
        Ok(s) => s,
        Err(_) => return false,
    };
    let key = match k256::ecdsa::VerifyingKey::from_sec1_bytes(pubkey) {
        Ok(k) => k,
        Err(_) => return false,
    };
    k256::ecdsa::signature::hazmat::PrehashVerifier::verify_prehash(&key, digest, &sig).is_ok()
}

/// The SHA-256 digest of `b` as a 32-byte vector.
pub fn sha256_vec(b: &[u8]) -> (r: Vec<u8>)
    ensures
        r@ == sha256_of(b@),
        r@.len() == 32,
{
    let d = sha256(b);
    vstd::slice::slice_to_vec(d.as_slice())
}

/// The 20-byte signer identity derived from a 65-byte uncompressed SEC1
/// public key: the last 20 bytes of Keccak-256 over the 64 coordinate
/// bytes (the leading `0x04` tag is excluded).
pub open spec fn signer_address_s(pubkey: Seq<u8>) -> Seq<u8> {
    keccak256_of(pubkey.subrange(1, 65)).subrange(12, 32)
}

/// Whether a run submission's signature material checks out: both byte
/// strings have length 65 and the first 64 bytes of `sig` verify over
/// SHA-256 of `blob` under `pubkey`.
pub open spec fn signature_ok_s(blob: Seq<u8>, sig: Seq<u8>, pubkey: Seq<u8>) -> bool {
    &&& sig.len() == 65
    &&& pubkey.len() == 65
    &&& ecdsa_verifies(sig.subrange(0, 64), pubkey, sha256_of(blob))
}

/// Verifies the 65-byte `r || s || v` signature (the recovery byte `v` is
/// ignored) over SHA-256 of `blob` under the 65-byte uncompressed public
/// key, and derives the signer identity. Any failure — wrong length, bad
/// parse, bad signature — collapses into `None`.
pub fn verify_signature(blob: &[u8], sig: &[u8], pubkey: &[u8]) -> (r: Option<Vec<u8>>)
    ensures
        r is Some <==> signature_ok_s(blob@, sig@, pubkey@),
        r is Some ==> r.unwrap()@ == signer_address_s(pubkey@) && r.unwrap()@.len() == 20,
{
    if sig.len() != 65 {
        return None;
    }
    if pubkey.len() != 65 {
        return None;
    }
    let digest = sha256(blob);
    if !ecdsa_verify(&sig[0..64], pubkey, &digest) {
        return None;
    }
    let out = keccak256(&pubkey[1..65]);
    let mut addr: Vec<u8> = Vec::new();
    let mut i: usize = 12;
    while i < 32
        invariant
            12 <= i <= 32,
            out@.len() == 32,
            addr@ == out@.subrange(12, i as int),
        decreases 32 - i,
    {
        addr.push(out[i]);
        proof {
            assert(addr@ == out@.subrange(12, i + 1 as int));
        }
        i = i + 1;
    }
    proof {
        assert(out@.subrange(12, 32) == keccak256_of(pubkey@.subrange(1, 65)).subrange(12, 32));
    }
    Some(addr)
}

} // verus!
