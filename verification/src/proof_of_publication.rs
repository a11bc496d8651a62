//! Proof of publication: a light-client proof of a header together with a
//! membership proof under that header's application hash, showing that a value
//! stands under a storage key on the ledger.

use vstd::prelude::*;
use crate::account::{account_bytes_spec, AccountId};
use crate::bytes::{append_bytes, bytes_eq, copy_bytes};
use crate::error::{Error, LightClientError};
use crate::light_client::{
    block_views, chain_spec, verify_chain, LightBlock, Options, Verdict, VerdictView,
};
use crate::membership::{verify_spec, CommitmentProof, Ics23MembershipVerifier, ProofSpec};
use crate::state::Height;

verus! {

/// What the enclave trusts of the ledger: the chain, a block of it, and the
/// verifier's settings.
pub struct LightClientOpts {
    pub chain_id: Vec<u8>,
    pub trusted_height: Height,
    pub trusted_hash: crate::state::Hash,
    pub options: Options,
}

/// A value on the ledger with the proofs that it is there.
pub struct ProofOfPublication<M> {
    /// The blocks from the trusted one to the one that the value is proved under.
    pub light_client_proof: Vec<LightBlock>,
    /// The proof that the value stands under the storage key.
    pub merkle_proof: CommitmentProof,
    /// The key that the value stands under.
    pub storage_key: Vec<u8>,
    /// The value that is proved.
    pub value: Vec<u8>,
    /// What the prover says the value means.
    pub msg: M,
}

/// The prefix of a contract's keys in the store of contracts.
pub const CONTRACT_STORE_PREFIX: u8 = 3;

/// The key under which a contract's item stands in the store of contracts: the
/// prefix, the contract's address bytes, and the item's name.
pub open spec fn storage_path(contract_bytes: Seq<u8>, item: Seq<u8>) -> Seq<u8> {
    seq![CONTRACT_STORE_PREFIX] + contract_bytes + item
}

/// The key under which the item `item` of `contract` stands.
pub fn storage_key_of(contract: &AccountId, item: &[u8]) -> (r: Vec<u8>)
    ensures
        account_bytes_spec(contract@) is Some,
        r@ == storage_path(account_bytes_spec(contract@).unwrap(), item@),
{
    let raw = contract.to_bytes();
    let mut key: Vec<u8> = Vec::new();
    key.push(CONTRACT_STORE_PREFIX);
    append_bytes(&mut key, raw.as_slice());
    append_bytes(&mut key, item);
    proof {
        assert(key@ =~= storage_path(raw@, item@));
    }
    key
}

/// What verifying a proof of publication gives: the proved value, or the reason
/// for refusing.
pub open spec fn pop_spec(
    blocks: Seq<crate::light_client::LightBlockView>,
    merkle_proof: CommitmentProof,
    storage_key: Seq<u8>,
    value: Seq<u8>,
    opts: LightClientOpts,
    proof_spec: ProofSpec,
    expected_key: Seq<u8>,
    now: u64,
) -> Result<Seq<u8>, Error> {
    match chain_spec(
        opts.trusted_height,
        opts.trusted_hash@,
        blocks,
        opts.chain_id@,
        opts.options,
        now,
    ) {
        VerdictView::NotEnoughTrust => Err(Error::LightClient(LightClientError::NotEnoughTrust)),
        VerdictView::Invalid(why) => Err(Error::LightClient(LightClientError::Invalid(why))),
        VerdictView::Success(app_hash) => if storage_key != expected_key {
            Err(Error::StorageKey)
        } else {
            match verify_spec(proof_spec, merkle_proof, storage_key, value) {
                Err(e) => Err(Error::MerkleProof(e)),
                Ok(root) => if root == app_hash {
                    Ok(value)
                } else {
                    Err(Error::MerkleProof(crate::membership::ProofError::VerificationFailure))
                },
            }
        },
    }
}

impl<M> ProofOfPublication<M> {
    /// Verifies the proof: the blocks must lead from the trusted block to a header,
    /// and the Merkle proof must show the value under `expected_key` and that
    /// header's application hash. Returns the proved value.
    pub fn verify(
        &self,
        opts: &LightClientOpts,
        proof_spec: ProofSpec,
        expected_key: &[u8],
        now: u64,
    ) -> (r: Result<Vec<u8>, Error>)
        ensures
            match pop_spec(
                block_views(self.light_client_proof@),
                self.merkle_proof,
                self.storage_key@,
                self.value@,
                *opts,
                proof_spec,
                expected_key@,
                now,
            ) {
                Ok(value) => r matches Ok(v) && v@ == value,
                Err(e) => r matches Err(f) && f == e,
            },
    {
        let app_hash = match verify_chain(
            opts.trusted_height,
            &opts.trusted_hash,
            &self.light_client_proof,
            opts.chain_id.as_slice(),
            &opts.options,
            now,
        ) {
            Verdict::Success(root) => root,
            Verdict::NotEnoughTrust => {
                return Err(Error::LightClient(LightClientError::NotEnoughTrust));
            },
            Verdict::Invalid(why) => {
                return Err(Error::LightClient(LightClientError::Invalid(why)));
            },
        };
        if !bytes_eq(self.storage_key.as_slice(), expected_key) {
            return Err(Error::StorageKey);
        }
        let verifier = Ics23MembershipVerifier::new(proof_spec);
        match verifier.verify_under(
            app_hash.as_slice(),
            &self.merkle_proof,
            self.storage_key.as_slice(),
            self.value.as_slice(),
        ) {
            Ok(_) => Ok(copy_bytes(self.value.as_slice())),
            Err(e) => Err(Error::MerkleProof(e)),
        }
    }
}

} // verus!
