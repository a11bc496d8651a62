//! Replay protection by sequence numbers.

use vstd::prelude::*;

verus! {

/// Why a batch was refused by the replay guard.
#[derive(Clone, Copy, Debug, PartialEq, Eq, Structural)]
pub enum SeqError {
    /// The ledger's sequence number lies behind what the batch brings the local
    /// number to: the batch, or a part of it, was seen before.
    ReplayAttempted,
    /// The ledger's sequence number lies beyond it: requests are missing.
    SeqMismatch,
}

/// What the guard decides for the local number, the ledger's number and the count
/// of sequenced requests in the batch. A batch is accepted exactly where the
/// ledger's number is the local number plus that count.
pub open spec fn seq_guard(local: u64, on_chain: u64, n_seq: nat) -> Result<u64, SeqError> {
    if on_chain < local + n_seq {
        Err(SeqError::ReplayAttempted)
    } else if on_chain > local + n_seq {
        Err(SeqError::SeqMismatch)
    } else {
        Ok(on_chain)
    }
}

/// Checks the ledger's sequence number against the local one and returns the new
/// local number.
pub fn ensure_seq_num_consistency(local: u64, on_chain: u64, n_seq: usize) -> (r: Result<
    u64,
    SeqError,
>)
    ensures
        r == seq_guard(local, on_chain, n_seq as nat),
{
    let expected: u128 = local as u128 + n_seq as u128;
    if (on_chain as u128) < expected {
        Err(SeqError::ReplayAttempted)
    } else if (on_chain as u128) > expected {
        Err(SeqError::SeqMismatch)
    } else {
        Ok(on_chain)
    }
}

/// A batch whose sequenced requests bring the local number exactly to the
/// ledger's is accepted, and the ledger's number becomes the local one; with any
/// smaller number on the ledger the batch is refused as a replay.
pub proof fn lemma_guard_accepts_exactly(local: u64, on_chain: u64, n_seq: nat)
    ensures
        on_chain == local + n_seq ==> seq_guard(local, on_chain, n_seq) == Ok::<u64, SeqError>(
            on_chain,
        ),
        on_chain < local + n_seq ==> seq_guard(local, on_chain, n_seq) == Err::<u64, SeqError>(
            SeqError::ReplayAttempted,
        ),
        seq_guard(local, on_chain, n_seq) is Ok ==> on_chain == local + n_seq,
{
}

/// A batch that was accepted is refused as a replay when it comes again, if it
/// holds a sequenced request.
pub proof fn lemma_second_time_is_replay(local: u64, on_chain: u64, n_seq: nat)
    requires
        seq_guard(local, on_chain, n_seq) is Ok,
        n_seq > 0,
    ensures
        seq_guard(on_chain, on_chain, n_seq) == Err::<u64, SeqError>(SeqError::ReplayAttempted),
{
}

} // verus!
