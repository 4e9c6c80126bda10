//! The journal encoder and the policy orchestrator over a decoded
//! submission.

use vstd::prelude::*;
use crate::crypto::sha256_of;
use crate::crypto::sha256_vec;
use crate::crypto::signature_ok_s;
use crate::crypto::signer_address_s;
use crate::crypto::verify_signature;
use crate::record::OutcomeV;
use crate::record::RunInput;
use crate::record::RunInputV;
use crate::record::VerificationOutcome;
use crate::trace::lemma_times_transitive;
use crate::trace::trace_ok_s;
use crate::trace::validate_trace;

verus! {

/// Saturates a non-negative elapsed-seconds value into 32 bits.
pub open spec fn clamp_u32_s(e: int) -> u32 {
    if e > u32::MAX {
        u32::MAX
    } else {
        e as u32
    }
}

/// The outcome the policy assigns to a decoded submission: accepted
/// exactly when the shape checks, the signature, and the trace walk all
/// pass; rejected — with no detail — otherwise.
pub open spec fn outcome_s(ri: RunInputV) -> OutcomeV {
    if ri.gps.len() >= 2 && ri.start_time <= ri.end_time && signature_ok_s(
        ri.blob,
        ri.sig,
        ri.pubkey,
    ) && trace_ok_s(ri.gps, ri.max_speed_mps, ri.max_elapsed_sec) {
        OutcomeV::Accepted {
            elapsed_seconds: clamp_u32_s(ri.gps[ri.gps.len() - 1].t - ri.gps[0].t),
            blob_hash: sha256_of(ri.blob),
            signer_address: signer_address_s(ri.pubkey),
        }
    } else {
        OutcomeV::Rejected
    }
}

/// The big-endian bytes of a 32-bit value.
pub open spec fn be_bytes_u32_s(v: u32) -> Seq<u8> {
    seq![
        (v / 0x100_0000) as u8,
        ((v / 0x1_0000) % 0x100) as u8,
        ((v / 0x100) % 0x100) as u8,
        (v % 0x100) as u8,
    ]
}

/// The journal bytes for an outcome: exactly one `0` byte on rejection;
/// on acceptance the flag byte `1`, four big-endian elapsed-seconds
/// bytes, the 32-byte payload hash, and the 20-byte signer identity.
pub open spec fn journal_s(o: OutcomeV) -> Seq<u8> {
    match o {
        OutcomeV::Rejected => seq![0u8],
        OutcomeV::Accepted { elapsed_seconds, blob_hash, signer_address } => seq![1u8]
            + be_bytes_u32_s(elapsed_seconds) + blob_hash + signer_address,
    }
}

/// Appends every byte of `src` to `dst`.
fn push_bytes(dst: &mut Vec<u8>, src: &[u8])
    ensures
        final(dst)@ == old(dst)@ + src@,
{
    let mut i: usize = 0;
    while i < src.len()
        invariant
            0 <= i <= src@.len(),
            dst@ == old(dst)@ + src@.subrange(0, i as int),
        decreases src@.len() - i,
    {
        dst.push(src[i]);
        proof {
            assert(dst@ == old(dst)@ + src@.subrange(0, i + 1 as int));
        }
        i = i + 1;
    }
    proof {
        assert(src@.subrange(0, src@.len() as int) == src@);
    }
}

/// Serializes an outcome into its fixed-layout journal bytes.
pub fn encode_journal(o: &VerificationOutcome) -> (j: Vec<u8>)
    ensures
        j@ == journal_s(o@),
{
    match o {
        VerificationOutcome::Rejected => {
            let mut v: Vec<u8> = Vec::new();
            v.push(0u8);
            proof {
                assert(v@ =~= seq![0u8]);
            }
            v
        },
        VerificationOutcome::Accepted { elapsed_seconds, blob_hash, signer_address } => {
            let e = *elapsed_seconds;
            let mut v: Vec<u8> = Vec::new();
            v.push(1u8);
            v.push((e / 0x100_0000) as u8);
            v.push(((e / 0x1_0000) % 0x100) as u8);
            v.push(((e / 0x100) % 0x100) as u8);
            v.push((e % 0x100) as u8);
            proof {
                assert(v@ =~= seq![1u8] + be_bytes_u32_s(e));
            }
            push_bytes(&mut v, blob_hash.as_slice());
            push_bytes(&mut v, signer_address.as_slice());
            proof {
                assert(v@ =~= journal_s(o@));
            }
            v
        },
    }
}

/// Applies the whole policy to a decoded submission: shape checks, then
/// signature and identity, then the trace walk. The first violation
/// collapses into the uniform `Rejected`.
pub fn verify_run(ri: &RunInput) -> (o: VerificationOutcome)
    ensures
        o@ == outcome_s(ri@),
{
    if ri.gps.len() < 2 {
        return VerificationOutcome::Rejected;
    }
    if !(ri.start_time <= ri.end_time) {
        return VerificationOutcome::Rejected;
    }
    let signer_address = match verify_signature(
        ri.blob.as_slice(),
        ri.sig.as_slice(),
        ri.pubkey.as_slice(),
    ) {
        Some(a) => a,
        None => {
            return VerificationOutcome::Rejected;
        },
    };
    if !validate_trace(&ri.gps, ri.max_speed_mps, ri.max_elapsed_sec) {
        return VerificationOutcome::Rejected;
    }
    proof {
        lemma_times_transitive(ri.gps@, 0, ri.gps@.len() - 1);
    }
    let last_t = ri.gps[ri.gps.len() - 1].t;
    let first_t = ri.gps[0].t;
    let elapsed = last_t - first_t;
    let elapsed_seconds = if elapsed > u32::MAX as u64 {
        u32::MAX
    } else {
        elapsed as u32
    };
    let blob_hash = sha256_vec(ri.blob.as_slice());
    let o = VerificationOutcome::Accepted { elapsed_seconds, blob_hash, signer_address };
    proof {
        assert(o@ =~= outcome_s(ri@));
    }
    o
}

} // verus!
