//! The data model: GPS samples, the decoded run submission, and the
//! verification outcome.

use vstd::prelude::*;

verus! {

/// One GPS fix: a timestamp in whole seconds and a position in
/// micro-degrees (degrees times `10^6`).
#[derive(Clone, Copy, PartialEq, Eq, Structural, Debug)]
pub struct Sample {
    pub t: u64,
    pub lat_microdeg: i32,
    pub lon_microdeg: i32,
}

/// A decoded run submission: the ordered trace, the claimed time window,
/// the policy bounds, and the signature material.
#[derive(Debug)]
pub struct RunInput {
    pub gps: Vec<Sample>,
    pub start_time: u64,
    pub end_time: u64,
    pub max_elapsed_sec: u32,
    pub max_speed_mps: u32,
    pub blob: Vec<u8>,
    pub sig: Vec<u8>,
    pub pubkey: Vec<u8>,
}

/// The mathematical view of a run submission.
#[verifier::ext_equal]
pub struct RunInputV {
    pub gps: Seq<Sample>,
    pub start_time: u64,
    pub end_time: u64,
    pub max_elapsed_sec: u32,
    pub max_speed_mps: u32,
    pub blob: Seq<u8>,
    pub sig: Seq<u8>,
    pub pubkey: Seq<u8>,
}

impl View for RunInput {
    type V = RunInputV;

    open spec fn view(&self) -> RunInputV {
        RunInputV {
            gps: self.gps@,
            start_time: self.start_time,
            end_time: self.end_time,
            max_elapsed_sec: self.max_elapsed_sec,
            max_speed_mps: self.max_speed_mps,
            blob: self.blob@,
            sig: self.sig@,
            pubkey: self.pubkey@,
        }
    }
}

/// The observable result of one verification call. On acceptance it
/// carries the elapsed seconds (saturated to 32 bits), the SHA-256 hash
/// of the attested payload, and the 20-byte signer identity.
#[derive(Debug)]
pub enum VerificationOutcome {
    Rejected,
    Accepted { elapsed_seconds: u32, blob_hash: Vec<u8>, signer_address: Vec<u8> },
}

/// The mathematical view of a verification outcome.
#[verifier::ext_equal]
pub enum OutcomeV {
    Rejected,
    Accepted { elapsed_seconds: u32, blob_hash: Seq<u8>, signer_address: Seq<u8> },
}

impl View for VerificationOutcome {
    type V = OutcomeV;

    open spec fn view(&self) -> OutcomeV {
        match self {
            VerificationOutcome::Rejected => OutcomeV::Rejected,
            VerificationOutcome::Accepted { elapsed_seconds, blob_hash, signer_address } => {
                OutcomeV::Accepted {
                    elapsed_seconds: *elapsed_seconds,
                    blob_hash: blob_hash@,
                    signer_address: signer_address@,
                }
            },
        }
    }
}

} // verus!
