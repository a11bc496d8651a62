//! The enclave's own state and the handshake that gives it a session key: first a
//! session is taken up under a nonce, then, once the ledger provably holds that
//! nonce, a key is generated and published.

use vstd::prelude::*;
use vstd::string::*;
use crate::account::{account_bytes_spec, AccountId};
use crate::attested::{Attested, HasUserData};
use crate::attestor::Attestor;
use crate::bytes::bytes_eq;
use crate::crypto::{
    ecies_decrypt, ecies_encrypt, is_sealed_length, public_key_spec, random_secret, sec1_public_key,
};
use crate::error::Error;
use crate::hex::encode_hex_spec;
use crate::membership::ProofSpec;
use crate::proof_of_publication::{
    pop_spec, storage_key_of, storage_path, LightClientOpts, ProofOfPublication,
};
use crate::light_client::block_views;
use crate::session::{SessionCreate, SessionSetPubKey};
use crate::state::{same_32, Nonce};
use crate::wire::{push_hex, push_text, quoted};

verus! {

/// How far the handshake has come.
#[derive(Clone, Copy, Debug, PartialEq, Eq, Structural)]
pub enum Phase {
    /// No session was taken up.
    Uninitialised,
    /// A session was taken up under a nonce; no key was published for it.
    NonceIssued,
    /// The session's key was published.
    KeyPublished,
}

/// The JSON text of a session as the contract stores it before a key is
/// published.
pub open spec fn pending_session_json(nonce: Seq<u8>) -> Seq<u8> {
    "{\"nonce\":".spec_bytes() + quoted(encode_hex_spec(nonce)) + ",\"pub_key\":null}".spec_bytes()
}

/// Writes the JSON text of a session as the contract stores it before a key is
/// published.
pub fn pending_session_to_json(nonce: &Nonce) -> (r: Vec<u8>)
    ensures
        r@ == pending_session_json(nonce@),
{
    let mut out: Vec<u8> = Vec::new();
    push_text(&mut out, "{\"nonce\":");
    push_hex(&mut out, nonce.as_slice());
    push_text(&mut out, ",\"pub_key\":null}");
    proof {
        assert(out@ =~= pending_session_json(nonce@));
    }
    out
}

/// What the enclave keeps for its lifetime: the session's secret key, the local
/// sequence number, and the contract and nonce of the session.
pub struct EnclaveState {
    signing_key: Option<[u8; 32]>,
    sequence_number: u64,
    contract: Option<AccountId>,
    nonce: Option<Nonce>,
}

impl EnclaveState {
    /// The session's secret key.
    pub closed spec fn key(&self) -> Option<Seq<u8>> {
        match self.signing_key {
            Some(k) => Some(k@),
            None => None,
        }
    }

    /// The local sequence number.
    pub closed spec fn seq(&self) -> u64 {
        self.sequence_number
    }

    /// The contract of the session.
    pub closed spec fn contract_spec(&self) -> Option<Seq<u8>> {
        match self.contract {
            Some(c) => Some(c@),
            None => None,
        }
    }

    /// The nonce of the session.
    pub closed spec fn nonce_spec(&self) -> Option<Seq<u8>> {
        match self.nonce {
            Some(n) => Some(n@),
            None => None,
        }
    }

    /// How far the handshake has come.
    pub open spec fn phase_spec(&self) -> Phase {
        if self.nonce_spec() is None || self.contract_spec() is None {
            Phase::Uninitialised
        } else if self.key() is None {
            Phase::NonceIssued
        } else {
            Phase::KeyPublished
        }
    }

    /// Whether two states hold the same values.
    pub open spec fn same_as(&self, other: &EnclaveState) -> bool {
        &&& self.key() == other.key()
        &&& self.seq() == other.seq()
        &&& self.contract_spec() == other.contract_spec()
        &&& self.nonce_spec() == other.nonce_spec()
    }

    /// The state of an enclave that has just started: everything unset.
    pub fn new() -> (r: EnclaveState)
        ensures
            r.key() is None,
            r.seq() == 0,
            r.contract_spec() is None,
            r.nonce_spec() is None,
            r.phase_spec() == Phase::Uninitialised,
    {
        EnclaveState { signing_key: None, sequence_number: 0, contract: None, nonce: None }
    }

    /// How far the handshake has come.
    pub fn phase(&self) -> (r: Phase)
        ensures
            r == self.phase_spec(),
    {
        if self.nonce.is_none() || self.contract.is_none() {
            Phase::Uninitialised
        } else if self.signing_key.is_none() {
            Phase::NonceIssued
        } else {
            Phase::KeyPublished
        }
    }

    /// Whether a session key is held.
    pub fn has_key(&self) -> (r: bool)
        ensures
            r == self.key().is_some(),
    {
        self.signing_key.is_some()
    }

    /// The local sequence number.
    pub fn sequence_number(&self) -> (r: u64)
        ensures
            r == self.seq(),
    {
        self.sequence_number
    }

    /// Sets the local sequence number.
    pub fn set_sequence_number(&mut self, value: u64)
        ensures
            final(self).seq() == value,
            final(self).key() == old(self).key(),
            final(self).contract_spec() == old(self).contract_spec(),
            final(self).nonce_spec() == old(self).nonce_spec(),
    {
        self.sequence_number = value;
    }

    /// The contract of the session, if one was taken up.
    pub fn contract(&self) -> (r: Option<&AccountId>)
        ensures
            r.is_some() == self.contract_spec().is_some(),
            r matches Some(c) ==> Some(c@) == self.contract_spec(),
    {
        self.contract.as_ref()
    }

    /// The SEC1 encoding of the session's public key, if a key was generated.
    pub fn public_key(&self) -> (r: Option<Vec<u8>>)
        ensures
            self.key() is None ==> r is None,
            self.key() matches Some(k) ==> (r.is_some() == public_key_spec(k).is_some() && (
            r matches Some(pk) ==> pk@ == public_key_spec(k).unwrap())),
    {
        match &self.signing_key {
            Some(k) => sec1_public_key(k.as_slice()),
            None => None,
        }
    }

    /// Generates a fresh session key and returns the SEC1 encoding of its public
    /// key. Where a key is already held, only the handshake may replace it.
    pub fn generate(&mut self, by_handshake: bool) -> (r: Result<Vec<u8>, Error>)
        ensures
            old(self).key() is Some && !by_handshake ==> r == Err::<Vec<u8>, Error>(
                Error::KeyUnavailable,
            ) && final(self).same_as(old(self)),
            old(self).key() is None || by_handshake ==> r is Ok,
            r matches Ok(pk) ==> final(self).key() is Some && public_key_spec(
                final(self).key().unwrap(),
            ) == Some(pk@),
            r matches Err(e) ==> e == Error::KeyUnavailable && final(self).same_as(old(self)),
            final(self).seq() == old(self).seq(),
            final(self).contract_spec() == old(self).contract_spec(),
            final(self).nonce_spec() == old(self).nonce_spec(),
    {
        if self.signing_key.is_some() && !by_handshake {
            return Err(Error::KeyUnavailable);
        }
        let secret = random_secret();
        match sec1_public_key(secret.as_slice()) {
            Some(pk) => {
                self.signing_key = Some(secret);
                Ok(pk)
            },
            None => Err(Error::KeyUnavailable),
        }
    }

    /// Decrypts a ciphertext that was encrypted to the session's public key. What
    /// comes back is what the cipher gives, shorter than the ciphertext by the
    /// cipher's framing; without a key there is nothing to decrypt with.
    pub fn decrypt_with_sk(&self, ciphertext: &[u8]) -> (r: Result<Vec<u8>, Error>)
        ensures
            self.key() is None ==> r == Err::<Vec<u8>, Error>(Error::KeyUnavailable),
            self.key() is Some ==> (r matches Err(e) ==> e == Error::Decrypt),
            r matches Ok(p) ==> is_sealed_length(ciphertext@.len(), p@.len()),
    {
        match &self.signing_key {
            None => Err(Error::KeyUnavailable),
            Some(k) => match ecies_decrypt(k.as_slice(), ciphertext) {
                Some(plain) => Ok(plain),
                None => Err(Error::Decrypt),
            },
        }
    }

    /// Takes up a session: remembers its nonce and contract, and attests the
    /// message that says so. A session taken up before is given up.
    pub fn session_create<A: Attestor>(
        &mut self,
        nonce: Nonce,
        contract: AccountId,
        attestor: &A,
    ) -> (r: Result<Attested<SessionCreate, Vec<u8>>, Error>)
        ensures
            r matches Ok(attested) ==> {
                &&& attestor.attests(attested.attestation@, attested.msg.user_data_spec())
                &&& attested.msg@.nonce == nonce@
                &&& attested.msg@.contract == contract@
                &&& final(self).nonce_spec() == Some(nonce@)
                &&& final(self).contract_spec() == Some(contract@)
                &&& final(self).key() == old(self).key()
                &&& final(self).seq() == old(self).seq()
            },
            r matches Err(e) ==> e == Error::Attestor && final(self).same_as(old(self)),
    {
        let kept = contract.clone();
        let msg = SessionCreate::new(nonce, contract);
        let quote = match attestor.quote(&msg) {
            Ok(q) => q,
            Err(_) => {
                return Err(Error::Attestor);
            },
        };
        self.nonce = Some(nonce);
        self.contract = Some(kept);
        Ok(Attested::new(msg, quote))
    }

    /// What stands between a proof and a new key: the session must have been
    /// taken up, the proof must verify for the session's storage key, and what it
    /// proves must be the session's nonce, pending on the ledger.
    pub open spec fn publish_check(
        &self,
        pop: &ProofOfPublication<Nonce>,
        opts: &LightClientOpts,
        proof_spec: ProofSpec,
        now: u64,
    ) -> Result<(), Error> {
        if self.phase_spec() == Phase::Uninitialised {
            Err(Error::KeyUnavailable)
        } else {
            match pop_spec(
                block_views(pop.light_client_proof@),
                pop.merkle_proof,
                pop.storage_key@,
                pop.value@,
                *opts,
                proof_spec,
                storage_path(
                    account_bytes_spec(self.contract_spec().unwrap()).unwrap(),
                    "quartz_session".spec_bytes(),
                ),
                now,
            ) {
                Err(e) => Err(e),
                Ok(value) => if pop.msg@ != self.nonce_spec().unwrap() || value
                    != pending_session_json(self.nonce_spec().unwrap()) {
                    Err(Error::StaleProof)
                } else {
                    Ok(())
                },
            }
        }
    }

    /// Publishes the session's key: checks the proof that the ledger holds the
    /// session's nonce, generates the key, and attests the message that carries
    /// its public half.
    pub fn session_set_pub_key<A: Attestor>(
        &mut self,
        pop: &ProofOfPublication<Nonce>,
        opts: &LightClientOpts,
        proof_spec: ProofSpec,
        now: u64,
        attestor: &A,
    ) -> (r: Result<Attested<SessionSetPubKey, Vec<u8>>, Error>)
        ensures
            old(self).publish_check(pop, opts, proof_spec, now) matches Err(e) ==> r matches Err(
                f,
            ) && f == e,
            r matches Err(e) ==> final(self).same_as(old(self)) && (old(self).publish_check(
                pop,
                opts,
                proof_spec,
                now,
            ) is Ok ==> e == Error::Attestor),
            r matches Ok(attested) ==> {
                &&& attestor.attests(attested.attestation@, attested.msg.user_data_spec())
                &&& Some(attested.msg@.nonce) == old(self).nonce_spec()
                &&& final(self).key() is Some
                &&& public_key_spec(final(self).key().unwrap()) == Some(attested.msg@.pub_key)
                &&& final(self).phase_spec() == Phase::KeyPublished
                &&& final(self).seq() == old(self).seq()
                &&& final(self).contract_spec() == old(self).contract_spec()
                &&& final(self).nonce_spec() == old(self).nonce_spec()
            },
    {
        let (nonce, contract) = match (&self.nonce, &self.contract) {
            (Some(n), Some(c)) => (*n, c),
            _ => {
                return Err(Error::KeyUnavailable);
            },
        };
        let expected_key = storage_key_of(contract, "quartz_session".as_bytes());
        let value = match pop.verify(opts, proof_spec, expected_key.as_slice(), now) {
            Ok(v) => v,
            Err(e) => {
                return Err(e);
            },
        };
        let expected_value = pending_session_to_json(&nonce);
        if !same_32(&pop.msg, &nonce) || !bytes_eq(value.as_slice(), expected_value.as_slice()) {
            return Err(Error::StaleProof);
        }
        let held = self.signing_key;
        let pub_key = match self.generate(true) {
            Ok(pk) => pk,
            Err(e) => {
                return Err(e);
            },
        };
        let msg = SessionSetPubKey::new(nonce, pub_key);
        let quote = match attestor.quote(&msg) {
            Ok(q) => q,
            Err(_) => {
                self.signing_key = held;
                return Err(Error::Attestor);
            },
        };
        Ok(Attested::new(msg, quote))
    }
}

/// Encrypts a plaintext to a public key. What comes back is what the cipher
/// gives: longer than the plaintext by the cipher's framing.
pub fn encrypt_to(public_key: &[u8], plaintext: &[u8]) -> (r: Result<Vec<u8>, Error>)
    ensures
        r matches Err(e) ==> e == Error::Encrypt,
        r matches Ok(c) ==> is_sealed_length(c@.len(), plaintext@.len()),
{
    match ecies_encrypt(public_key, plaintext) {
        Some(c) => Ok(c),
        None => Err(Error::Encrypt),
    }
}

} // verus!
