//! Laws of the verification pipeline, stated and proved once for all
//! inputs.

use vstd::prelude::*;
use crate::crypto::signature_ok_s;
use crate::journal::be_bytes_u32_s;
use crate::journal::journal_s;
use crate::journal::outcome_s;
use crate::record::OutcomeV;
use crate::record::RunInputV;
use crate::run_s;
use crate::trace::seg_speed_s;
use crate::trace::times_increasing_s;
use crate::trace::total_dist_s;
use crate::trace::trace_ok_s;
use crate::trace::MIN_DISTANCE_M;

verus! {

/// Determinism: equal input buffers are owed equal journal bytes, on
/// every invocation.
pub proof fn lemma_deterministic(i1: Seq<u8>, i2: Seq<u8>)
    requires
        i1 == i2,
    ensures
        run_s(i1) == run_s(i2),
{
}

/// Sample-count floor: a submission whose trace holds fewer than two
/// samples is rejected, whatever its other fields hold.
pub proof fn lemma_sample_count_floor(ri: RunInputV)
    requires
        ri.gps.len() < 2,
    ensures
        outcome_s(ri) is Rejected,
{
}

/// Time order: a single adjacent pair whose timestamps do not strictly
/// increase rejects the whole submission.
pub proof fn lemma_time_order(ri: RunInputV, j: int)
    requires
        1 <= j < ri.gps.len(),
        ri.gps[j].t <= ri.gps[j - 1].t,
    ensures
        outcome_s(ri) is Rejected,
{
    assert(!times_increasing_s(ri.gps, ri.gps.len() as int));
}

/// Speed limit: one segment whose floor speed exceeds the bound rejects
/// the whole submission.
pub proof fn lemma_speed_limit(ri: RunInputV, j: int)
    requires
        1 <= j < ri.gps.len(),
        seg_speed_s(ri.gps, j) > ri.max_speed_mps,
    ensures
        outcome_s(ri) is Rejected,
{
    assert(!trace_ok_s(ri.gps, ri.max_speed_mps, ri.max_elapsed_sec));
}

/// Distance floor: a trace whose accumulated distance stays below the
/// qualifying minimum is rejected.
pub proof fn lemma_distance_floor(ri: RunInputV)
    requires
        total_dist_s(ri.gps, ri.gps.len() - 1) < MIN_DISTANCE_M,
    ensures
        outcome_s(ri) is Rejected,
{
}

/// Acceptance characterization: a submission is accepted exactly when
/// every policy invariant holds — at least two samples, an ordered time
/// window, a verifying signature, strictly increasing timestamps, every
/// segment within the speed limit, elapsed time within the bound, and
/// the qualifying distance reached.
pub proof fn lemma_accept_iff(ri: RunInputV)
    ensures
        (outcome_s(ri) is Accepted) <==> {
            &&& ri.gps.len() >= 2
            &&& ri.start_time <= ri.end_time
            &&& signature_ok_s(ri.blob, ri.sig, ri.pubkey)
            &&& trace_ok_s(ri.gps, ri.max_speed_mps, ri.max_elapsed_sec)
        },
{
}

/// Decode robustness: an input buffer that does not decode — truncated,
/// tag missing, malformed — is owed exactly the single-byte rejection
/// journal.
pub proof fn lemma_decode_failure_journal(input: Seq<u8>)
    requires
        crate::decode::run_input_s(input) is None,
    ensures
        run_s(input) == seq![0u8],
{
}

/// Rejection journal: every rejected submission, for whatever reason, is
/// owed the same single `0` byte — no cause is observable.
pub proof fn lemma_uniform_rejection(input: Seq<u8>)
    requires
        match crate::decode::run_input_s(input) {
            None => true,
            Some(ri) => outcome_s(ri) is Rejected,
        },
    ensures
        run_s(input) == seq![0u8],
{
    match crate::decode::run_input_s(input) {
        None => {},
        Some(ri) => {
            assert(journal_s(OutcomeV::Rejected) == seq![0u8]);
        },
    }
}

/// Accepted elapsed time is exact: the elapsed-seconds clamp can only
/// saturate past the elapsed bound, and past the bound the run is
/// rejected, so an accepted journal always reports the true difference
/// of the last and first timestamps.
pub proof fn lemma_accepted_elapsed_exact(ri: RunInputV)
    requires
        outcome_s(ri) is Accepted,
    ensures
        outcome_s(ri) matches OutcomeV::Accepted { elapsed_seconds, .. } ==> elapsed_seconds
            == ri.gps[ri.gps.len() - 1].t - ri.gps[0].t,
{
    crate::trace::lemma_times_transitive(ri.gps, 0, ri.gps.len() - 1);
}

/// Journal layout: an accepted outcome with a 32-byte hash and a
/// 20-byte identity is encoded as exactly 57 bytes — the flag `1`, the
/// big-endian elapsed seconds at offset 1, the hash at offset 5, the
/// identity at offset 37.
pub proof fn lemma_journal_layout(
    elapsed_seconds: u32,
    blob_hash: Seq<u8>,
    signer_address: Seq<u8>,
)
    requires
        blob_hash.len() == 32,
        signer_address.len() == 20,
    ensures
        ({
            let j = journal_s(
                OutcomeV::Accepted { elapsed_seconds, blob_hash, signer_address },
            );
            &&& j.len() == 57
            &&& j[0] == 1u8
            &&& j.subrange(1, 5) == be_bytes_u32_s(elapsed_seconds)
            &&& j.subrange(5, 37) == blob_hash
            &&& j.subrange(37, 57) == signer_address
        }),
{
    let j = journal_s(OutcomeV::Accepted { elapsed_seconds, blob_hash, signer_address });
    assert(j.subrange(1, 5) =~= be_bytes_u32_s(elapsed_seconds));
    assert(j.subrange(5, 37) =~= blob_hash);
    assert(j.subrange(37, 57) =~= signer_address);
}

} // verus!
