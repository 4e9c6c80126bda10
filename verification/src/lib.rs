//! Deterministic verification of signed GPS run traces.
//!
//! The crate decodes a compact CBOR record describing a run (GPS samples,
//! a time window, speed and distance policy bounds, a signed payload),
//! checks the ECDSA signature, walks the trace with Q32.32 fixed-point
//! geodesy, and encodes a fixed-layout journal holding the outcome.

pub mod crypto;
pub mod decode;
pub mod geo;
pub mod journal;
pub mod record;
pub mod trace;

pub mod laws;

use vstd::prelude::*;

verus! {

/// The journal bytes owed for a raw input buffer: the single rejection
/// byte when the record does not decode, otherwise the encoded outcome
/// of the policy on the decoded record.
pub open spec fn run_s(input: Seq<u8>) -> Seq<u8> {
    match decode::run_input_s(input) {
        None => seq![0u8],
        Some(ri) => journal::journal_s(journal::outcome_s(ri)),
    }
}

/// One whole verification call: decodes the input buffer, applies the
/// policy, and serializes the journal. Deterministic: the result is a
/// function of the input bytes alone.
pub fn run_verification(input: &[u8]) -> (j: Vec<u8>)
    ensures
        j@ == run_s(input@),
{
    match decode::decode_run_input(input) {
        Some(ri) => {
            let o = journal::verify_run(&ri);
            journal::encode_journal(&o)
        },
        None => {
            let o = record::VerificationOutcome::Rejected;
            journal::encode_journal(&o)
        },
    }
}

} // verus!
