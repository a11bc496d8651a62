//! The ledger's side of the handshake: the contract keeps the session and accepts
//! a message of the enclave only when its attestation verifies.

use vstd::prelude::*;
use crate::account::AccountId;
use crate::attested::{
    judge, verify_attested, Attestation, Attested, AttestationRejected, HasUserData,
};
use crate::bytes::copy_bytes;
use crate::crypto::{check_sec1_point, is_sec1_point};
use crate::session::{SessionCreate, SessionSetPubKey};
use crate::state::{same_32, MrEnclave, Nonce};

verus! {

/// Why the contract refused a message.
#[derive(Clone, Copy, Debug, PartialEq, Eq, Structural)]
pub enum ContractError {
    /// The attestation did not verify.
    AttestationRejected(AttestationRejected),
    /// The message is for another contract.
    ContractMismatch,
    /// No session was created.
    NoSession,
    /// The message carries another nonce than the session's.
    NonceMismatch,
    /// The session's key was published before.
    KeyAlreadyPublished,
    /// The key is no point of the curve.
    InvalidPubKey,
}

/// The contract's session: its nonce and, once published, the enclave's key.
pub struct Session {
    pub nonce: Nonce,
    pub pub_key: Option<Vec<u8>>,
}

/// A session as values.
pub struct SessionView {
    pub nonce: Seq<u8>,
    pub pub_key: Option<Seq<u8>>,
}

impl View for Session {
    type V = SessionView;

    open spec fn view(&self) -> SessionView {
        SessionView {
            nonce: self.nonce@,
            pub_key: match self.pub_key {
                Some(k) => Some(k@),
                None => None,
            },
        }
    }
}

/// What the contract stores for the handshake.
pub struct ContractState {
    address: AccountId,
    mr_enclave: MrEnclave,
    session: Option<Session>,
    epoch_counter: u64,
}

impl ContractState {
    /// The contract's own address.
    pub closed spec fn address(&self) -> Seq<u8> {
        self.address@
    }

    /// The code that the contract accepts messages from.
    pub closed spec fn expected_mr_enclave(&self) -> Seq<u8> {
        self.mr_enclave@
    }

    /// The number of the current epoch.
    pub closed spec fn epoch(&self) -> u64 {
        self.epoch_counter
    }

    /// The session, if one was created.
    pub closed spec fn session(&self) -> Option<SessionView> {
        match self.session {
            Some(s) => Some(s@),
            None => None,
        }
    }

    /// The state of a contract that was just instantiated for an enclave's code.
    pub fn new(address: AccountId, mr_enclave: MrEnclave) -> (r: Self)
        ensures
            r.address() == address@,
            r.expected_mr_enclave() == mr_enclave@,
            r.session() is None,
            r.epoch() == 1,
    {
        Self { address, mr_enclave, session: None, epoch_counter: 1 }
    }

    /// The number of the current epoch. The handshake leaves it as it is.
    pub fn epoch_counter(&self) -> (r: u64)
        ensures
            r == self.epoch(),
    {
        self.epoch_counter
    }

    /// The enclave's public key, once it was published.
    pub fn get_public_key(&self) -> (r: Option<Vec<u8>>)
        ensures
            match self.session() {
                Some(s) => match s.pub_key {
                    Some(k) => r matches Some(v) && v@ == k,
                    None => r is None,
                },
                None => r is None,
            },
    {
        match &self.session {
            Some(s) => match &s.pub_key {
                Some(k) => Some(copy_bytes(k.as_slice())),
                None => None,
            },
            None => None,
        }
    }

    /// The nonce of the session, if one was created.
    pub fn get_nonce(&self) -> (r: Option<Nonce>)
        ensures
            match self.session() {
                Some(s) => r matches Some(n) && n@ == s.nonce,
                None => r is None,
            },
    {
        match &self.session {
            Some(s) => Some(s.nonce),
            None => None,
        }
    }

    /// The verdict on an attested message of the enclave.
    pub open spec fn accepts<M: HasUserData, A: HasUserData + Attestation>(
        &self,
        attested: &Attested<M, A>,
        genuine: bool,
    ) -> Result<(), AttestationRejected> {
        judge(
            genuine,
            attested.attestation.user_data_spec(),
            attested.attestation.mr_enclave_spec(),
            attested.msg.user_data_spec(),
            self.expected_mr_enclave(),
        )
    }

    /// Judges an attested message of the enclave: its attestation must bind the
    /// message and name the code that the contract was instantiated for.
    /// `genuine` is what the verifier of the platform's evidence said.
    pub fn check_attested<M: HasUserData, A: HasUserData + Attestation>(
        &self,
        attested: &Attested<M, A>,
        genuine: bool,
    ) -> (r: Result<(), ContractError>)
        ensures
            match self.accepts(attested, genuine) {
                Ok(()) => r is Ok,
                Err(why) => r == Err::<(), ContractError>(ContractError::AttestationRejected(why)),
            },
    {
        match verify_attested(attested, genuine, &self.mr_enclave) {
            Ok(()) => Ok(()),
            Err(why) => Err(ContractError::AttestationRejected(why)),
        }
    }

    /// What creating a session gives: the session under the message's nonce, or
    /// the reason for refusing.
    pub open spec fn session_create_spec<A: HasUserData + Attestation>(
        &self,
        attested: &Attested<SessionCreate, A>,
        genuine: bool,
    ) -> Result<SessionView, ContractError> {
        match self.accepts(attested, genuine) {
            Err(why) => Err(ContractError::AttestationRejected(why)),
            Ok(()) => if attested.msg@.contract != self.address() {
                Err(ContractError::ContractMismatch)
            } else {
                Ok(SessionView { nonce: attested.msg@.nonce, pub_key: None })
            },
        }
    }

    /// Creates the session of an attested `SessionCreate`. A session that was
    /// there before is replaced.
    pub fn handle_session_create<A: HasUserData + Attestation>(
        &mut self,
        attested: Attested<SessionCreate, A>,
        genuine: bool,
    ) -> (r: Result<(), ContractError>)
        ensures
            final(self).address() == old(self).address(),
            final(self).expected_mr_enclave() == old(self).expected_mr_enclave(),
            final(self).epoch() == old(self).epoch(),
            match old(self).session_create_spec(&attested, genuine) {
                Ok(session) => r is Ok && final(self).session() == Some(session),
                Err(e) => r == Err::<(), ContractError>(e) && final(self).session() == old(self).session(),
            },
    {
        match self.check_attested(&attested, genuine) {
            Ok(()) => {},
            Err(e) => {
                return Err(e);
            },
        }
        if !attested.msg.contract().same(&self.address) {
            return Err(ContractError::ContractMismatch);
        }
        let nonce = attested.msg.into_nonce();
        self.session = Some(Session { nonce, pub_key: None });
        Ok(())
    }

    /// What publishing a key gives: the session with the key, or the reason for
    /// refusing.
    pub open spec fn session_set_pub_key_spec<A: HasUserData + Attestation>(
        &self,
        attested: &Attested<SessionSetPubKey, A>,
        genuine: bool,
    ) -> Result<SessionView, ContractError> {
        match self.accepts(attested, genuine) {
            Err(why) => Err(ContractError::AttestationRejected(why)),
            Ok(()) => match self.session() {
                None => Err(ContractError::NoSession),
                Some(session) => if attested.msg@.nonce != session.nonce {
                    Err(ContractError::NonceMismatch)
                } else if session.pub_key is Some {
                    Err(ContractError::KeyAlreadyPublished)
                } else if !is_sec1_point(attested.msg@.pub_key) {
                    Err(ContractError::InvalidPubKey)
                } else {
                    Ok(SessionView { nonce: session.nonce, pub_key: Some(attested.msg@.pub_key) })
                },
            },
        }
    }

    /// Stores the key of an attested `SessionSetPubKey`, if it is for the session
    /// that was created and no key was published for it.
    pub fn handle_session_set_pub_key<A: HasUserData + Attestation>(
        &mut self,
        attested: Attested<SessionSetPubKey, A>,
        genuine: bool,
    ) -> (r: Result<(), ContractError>)
        ensures
            final(self).address() == old(self).address(),
            final(self).expected_mr_enclave() == old(self).expected_mr_enclave(),
            final(self).epoch() == old(self).epoch(),
            match old(self).session_set_pub_key_spec(&attested, genuine) {
                Ok(session) => r is Ok && final(self).session() == Some(session),
                Err(e) => r == Err::<(), ContractError>(e) && final(self).session() == old(self).session(),
            },
    {
        match self.check_attested(&attested, genuine) {
            Ok(()) => {},
            Err(e) => {
                return Err(e);
            },
        }
        let (stored_nonce, has_key) = match &self.session {
            None => {
                return Err(ContractError::NoSession);
            },
            Some(s) => (s.nonce, s.pub_key.is_some()),
        };
        if !same_32(attested.msg.nonce(), &stored_nonce) {
            return Err(ContractError::NonceMismatch);
        }
        if has_key {
            return Err(ContractError::KeyAlreadyPublished);
        }
        if !check_sec1_point(attested.msg.pub_key()) {
            return Err(ContractError::InvalidPubKey);
        }
        let (nonce, pub_key) = attested.msg.into_tuple();
        self.session = Some(Session { nonce: stored_nonce, pub_key: Some(pub_key) });
        Ok(())
    }
}

/// The messages of the handshake, as the contract takes them.
pub enum QuartzExecuteMsg<A> {
    SessionCreate(Attested<SessionCreate, A>),
    SessionSetPubKey(Attested<SessionSetPubKey, A>),
}

impl ContractState {
    /// What a message of the handshake does to the session.
    pub open spec fn quartz_spec<A: HasUserData + Attestation>(
        &self,
        msg: &QuartzExecuteMsg<A>,
        genuine: bool,
    ) -> Result<SessionView, ContractError> {
        match *msg {
            QuartzExecuteMsg::SessionCreate(attested) => self.session_create_spec(
                &attested,
                genuine,
            ),
            QuartzExecuteMsg::SessionSetPubKey(attested) => self.session_set_pub_key_spec(
                &attested,
                genuine,
            ),
        }
    }

    /// Handles a message of the handshake.
    pub fn handle_quartz<A: HasUserData + Attestation>(
        &mut self,
        msg: QuartzExecuteMsg<A>,
        genuine: bool,
    ) -> (r: Result<(), ContractError>)
        ensures
            final(self).address() == old(self).address(),
            final(self).expected_mr_enclave() == old(self).expected_mr_enclave(),
            final(self).epoch() == old(self).epoch(),
            match old(self).quartz_spec(&msg, genuine) {
                Ok(session) => r is Ok && final(self).session() == Some(session),
                Err(e) => r == Err::<(), ContractError>(e) && final(self).session() == old(self).session(),
            },
    {
        match msg {
            QuartzExecuteMsg::SessionCreate(attested) => self.handle_session_create(
                attested,
                genuine,
            ),
            QuartzExecuteMsg::SessionSetPubKey(attested) => self.handle_session_set_pub_key(
                attested,
                genuine,
            ),
        }
    }
}

/// A message with another nonce than the session's publishes no key, whatever
/// its attestation.
pub proof fn lemma_nonce_mismatch_is_rejected<A: HasUserData + Attestation>(
    state: ContractState,
    attested: Attested<SessionSetPubKey, A>,
    genuine: bool,
)
    requires
        state.session() matches Some(s) && s.nonce != attested.msg@.nonce,
    ensures
        state.session_set_pub_key_spec(&attested, genuine) is Err,
{
}

} // verus!
