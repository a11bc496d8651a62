//! The failures of the enclave's operations, and how each is reported to a caller.

use vstd::prelude::*;
use crate::attested::AttestationRejected;
use crate::ledger::LedgerError;
use crate::light_client::Invalid;
use crate::membership::ProofError;

verus! {

/// What in a request was malformed.
#[derive(Clone, Copy, Debug, PartialEq, Eq, Structural)]
pub enum ProtocolError {
    /// An address holds a character that cannot stand in a message.
    MalformedAddress,
    /// The decrypted state is not the text of a state.
    MalformedState,
    /// A decrypted transfer is not the text of a transfer.
    MalformedTransfer,
    /// The batch holds more requests than a message can count.
    TooManyRequests,
    /// A public key is no point of the curve.
    InvalidPublicKey,
}

/// Why the light client did not accept a proof.
#[derive(Clone, Copy, Debug, PartialEq, Eq, Structural)]
pub enum LightClientError {
    /// Too little of the trusted validators' power signed a block of the proof.
    NotEnoughTrust,
    /// A block of the proof breaks a rule.
    Invalid(Invalid),
}

/// Why an operation of the enclave failed.
#[derive(Clone, Copy, Debug, PartialEq, Eq, Structural)]
pub enum Error {
    /// The request was malformed.
    Protocol(ProtocolError),
    /// An attestation was not accepted.
    AttestationRejected(AttestationRejected),
    /// The light client did not accept the proof's blocks.
    LightClient(LightClientError),
    /// The Merkle proof was not accepted.
    MerkleProof(ProofError),
    /// The proof is for another storage key than the expected.
    StorageKey,
    /// What the proof shows is not what the request holds.
    ProofVerification,
    /// The proof shows another nonce than the session's.
    StaleProof,
    /// The batch, or a part of it, was seen before.
    ReplayAttempted,
    /// The ledger's sequence number is beyond what the batch accounts for.
    SeqMismatch,
    /// The enclave has no session key, or no session, yet.
    KeyUnavailable,
    /// Encryption failed.
    Encrypt,
    /// Decryption failed.
    Decrypt,
    /// The batch would overflow an account.
    Ledger(LedgerError),
    /// The platform gave no quote.
    Attestor,
}

/// The status under which a failure is reported.
#[derive(Clone, Copy, Debug, PartialEq, Eq, Structural)]
pub enum Status {
    InvalidArgument,
    FailedPrecondition,
    Internal,
}

/// The status of each failure.
pub open spec fn status_spec(e: Error) -> Status {
    match e {
        Error::Protocol(_) => Status::InvalidArgument,
        Error::Decrypt => Status::InvalidArgument,
        Error::AttestationRejected(_) => Status::FailedPrecondition,
        Error::LightClient(_) => Status::FailedPrecondition,
        Error::MerkleProof(_) => Status::FailedPrecondition,
        Error::StorageKey => Status::FailedPrecondition,
        Error::ProofVerification => Status::FailedPrecondition,
        Error::StaleProof => Status::FailedPrecondition,
        Error::ReplayAttempted => Status::FailedPrecondition,
        Error::SeqMismatch => Status::FailedPrecondition,
        Error::KeyUnavailable => Status::Internal,
        Error::Encrypt => Status::Internal,
        Error::Ledger(_) => Status::Internal,
        Error::Attestor => Status::Internal,
    }
}

impl Error {
    /// The status under which the failure is reported.
    pub fn status(&self) -> (r: Status)
        ensures
            r == status_spec(*self),
    {
        match self {
            Error::Protocol(_) => Status::InvalidArgument,
            Error::Decrypt => Status::InvalidArgument,
            Error::AttestationRejected(_) => Status::FailedPrecondition,
            Error::LightClient(_) => Status::FailedPrecondition,
            Error::MerkleProof(_) => Status::FailedPrecondition,
            Error::StorageKey => Status::FailedPrecondition,
            Error::ProofVerification => Status::FailedPrecondition,
            Error::StaleProof => Status::FailedPrecondition,
            Error::ReplayAttempted => Status::FailedPrecondition,
            Error::SeqMismatch => Status::FailedPrecondition,
            Error::KeyUnavailable => Status::Internal,
            Error::Encrypt => Status::Internal,
            Error::Ledger(_) => Status::Internal,
            Error::Attestor => Status::Internal,
        }
    }
}

} // verus!
