//! The two messages of the handshake that gives an enclave its session key.

use vstd::prelude::*;
use vstd::string::*;
use crate::account::{is_canonical_account, parse_account_spec, AccountId};
use crate::attested::{HasDomainType, HasUserData};
use crate::bytes::{copy_bytes, lemma_cancel_head, lemma_cancel_tail, lemma_split_same};
use crate::crypto::{check_sec1_point, is_sec1_point, sha256, sha256_spec};
use crate::hex::{decode_hex, decode_hex_spec, encode_hex, encode_hex_spec, lemma_hex_round_trip};
use crate::state::{to_array_32, Nonce, StdError, UserData};
use crate::wire::{pad_digest, push_hex, push_quoted, push_text, quoted, user_data_of_digest};

verus! {

/// The first message: the enclave takes up the session that the contract opened
/// under `nonce`.
pub struct SessionCreate {
    nonce: Nonce,
    contract: AccountId,
}

/// A `SessionCreate` seen as values.
pub struct SessionCreateView {
    pub nonce: Seq<u8>,
    pub contract: Seq<u8>,
}

impl View for SessionCreate {
    type V = SessionCreateView;

    closed spec fn view(&self) -> SessionCreateView {
        SessionCreateView { nonce: self.nonce@, contract: self.contract@ }
    }
}

/// The JSON text of a `SessionCreate`, which its report data is the digest of.
pub open spec fn session_create_json(m: SessionCreateView) -> Seq<u8> {
    "{\"nonce\":".spec_bytes() + quoted(encode_hex_spec(m.nonce)) + ",\"contract\":".spec_bytes()
        + quoted(m.contract) + "}".spec_bytes()
}

impl SessionCreate {
    /// The message for a nonce and the contract that issued it.
    pub fn new(nonce: Nonce, contract: AccountId) -> (r: Self)
        ensures
            r@.nonce == nonce@,
            r@.contract == contract@,
    {
        Self { nonce, contract }
    }

    /// The nonce of the session.
    pub fn into_nonce(self) -> (r: Nonce)
        ensures
            r@ == self@.nonce,
    {
        self.nonce
    }

    /// The contract that the session belongs to.
    pub fn contract(&self) -> (r: &AccountId)
        ensures
            r@ == self@.contract,
    {
        &self.contract
    }

    /// The JSON text of the message.
    pub fn to_json(&self) -> (r: Vec<u8>)
        ensures
            r@ == session_create_json(self@),
    {
        let mut out: Vec<u8> = Vec::new();
        push_text(&mut out, "{\"nonce\":");
        push_hex(&mut out, self.nonce.as_slice());
        push_text(&mut out, ",\"contract\":");
        push_quoted(&mut out, self.contract.as_bytes());
        push_text(&mut out, "}");
        proof {
            assert(out@ =~= session_create_json(self@));
        }
        out
    }
}

impl HasUserData for SessionCreate {
    open spec fn user_data_spec(&self) -> Seq<u8> {
        pad_digest(sha256_spec(session_create_json(self@)))
    }

    fn user_data(&self) -> (r: UserData) {
        let json = self.to_json();
        let digest = sha256(json.as_slice());
        user_data_of_digest(&digest)
    }
}

/// The wire form of a `SessionCreate`: the nonce as hex text, the contract as text.
pub struct RawSessionCreate {
    pub nonce: Vec<u8>,
    pub contract: Vec<u8>,
}

/// The wire form of a `SessionCreate` seen as values.
pub struct RawSessionCreateView {
    pub nonce: Seq<u8>,
    pub contract: Seq<u8>,
}

impl View for RawSessionCreate {
    type V = RawSessionCreateView;

    open spec fn view(&self) -> RawSessionCreateView {
        RawSessionCreateView { nonce: self.nonce@, contract: self.contract@ }
    }
}

impl HasDomainType for RawSessionCreate {
    type DomainType = SessionCreate;

    open spec fn valid(d: SessionCreateView) -> bool {
        d.nonce.len() == 32 && is_canonical_account(d.contract)
    }

    open spec fn to_domain_spec(raw: RawSessionCreateView) -> Result<SessionCreateView, StdError> {
        match decode_hex_spec(raw.nonce) {
            None => Err(StdError::InvalidHex),
            Some(nonce) => if nonce.len() != 32 {
                Err(StdError::InvalidDataSize { expected: 32, actual: nonce.len() as u64 })
            } else {
                match parse_account_spec(raw.contract) {
                    None => Err(StdError::ParseAccountId),
                    Some(contract) => Ok(SessionCreateView { nonce, contract }),
                }
            },
        }
    }

    open spec fn from_domain_spec(d: SessionCreateView) -> RawSessionCreateView {
        RawSessionCreateView { nonce: encode_hex_spec(d.nonce), contract: d.contract }
    }

    proof fn lemma_round_trip(d: SessionCreateView) {
        lemma_hex_round_trip(d.nonce);
    }

    fn to_domain(self) -> (r: Result<SessionCreate, StdError>) {
        let nonce_bytes = match decode_hex(self.nonce.as_slice()) {
            Some(n) => n,
            None => {
                return Err(StdError::InvalidHex);
            },
        };
        let nonce = match to_array_32(nonce_bytes.as_slice()) {
            Ok(n) => n,
            Err(e) => {
                return Err(e);
            },
        };
        let contract = match AccountId::parse(self.contract.as_slice()) {
            Some(c) => c,
            None => {
                return Err(StdError::ParseAccountId);
            },
        };
        Ok(SessionCreate { nonce, contract })
    }

    fn from_domain(d: SessionCreate) -> (r: Self)
        ensures
            Self::to_domain_spec(r@) == Ok::<SessionCreateView, StdError>(d@),
    {
        let contract = copy_bytes(d.contract.as_bytes());
        proof {
            Self::lemma_round_trip(d@);
        }
        RawSessionCreate { nonce: encode_hex(d.nonce.as_slice()), contract }
    }
}

impl SessionCreate {
    /// Reads the message from its wire form: the nonce as hex text and the
    /// contract as an account id. What was written from a message reads back as
    /// that message.
    pub fn try_from(raw: RawSessionCreate) -> (r: Result<SessionCreate, StdError>)
        ensures
            r matches Ok(m) ==> RawSessionCreate::to_domain_spec(raw@) == Ok::<
                SessionCreateView,
                StdError,
            >(m@),
            r matches Err(e) ==> RawSessionCreate::to_domain_spec(raw@) == Err::<
                SessionCreateView,
                StdError,
            >(e),
    {
        raw.to_domain()
    }
}

/// Two session-create messages with the same JSON text are the same message.
pub proof fn lemma_session_create_json_injective(a: SessionCreateView, b: SessionCreateView)
    requires
        a.nonce.len() == 32,
        b.nonce.len() == 32,
        session_create_json(a) == session_create_json(b),
    ensures
        a == b,
{
    let head = "{\"nonce\":".spec_bytes();
    let mid = ",\"contract\":".spec_bytes();
    let tail = "}".spec_bytes();
    let ha = quoted(encode_hex_spec(a.nonce));
    let hb = quoted(encode_hex_spec(b.nonce));
    let ra = mid + quoted(a.contract) + tail;
    let rb = mid + quoted(b.contract) + tail;
    assert(session_create_json(a) =~= head + (ha + ra));
    assert(session_create_json(b) =~= head + (hb + rb));
    lemma_cancel_head(head, ha + ra, hb + rb);
    assert(ha.len() == hb.len());
    lemma_split_same(ha, ra, hb, rb);
    assert(encode_hex_spec(a.nonce) =~= ha.subrange(1, ha.len() - 1));
    assert(encode_hex_spec(b.nonce) =~= hb.subrange(1, hb.len() - 1));
    lemma_hex_round_trip(a.nonce);
    lemma_hex_round_trip(b.nonce);
    assert(a.nonce == b.nonce);
    assert(ra =~= mid + (quoted(a.contract) + tail));
    assert(rb =~= mid + (quoted(b.contract) + tail));
    lemma_cancel_head(mid, quoted(a.contract) + tail, quoted(b.contract) + tail);
    lemma_cancel_tail(quoted(a.contract), quoted(b.contract), tail);
    assert(a.contract =~= quoted(a.contract).subrange(1, quoted(a.contract).len() - 1));
    assert(b.contract =~= quoted(b.contract).subrange(1, quoted(b.contract).len() - 1));
}

/// The report data of two different session-create messages differs, unless
/// SHA-256 gives two different texts the same digest.
pub proof fn lemma_session_create_binding(a: SessionCreate, b: SessionCreate)
    requires
        a@.nonce.len() == 32,
        b@.nonce.len() == 32,
        a.user_data_spec() == b.user_data_spec(),
    ensures
        a@ == b@ || (session_create_json(a@) != session_create_json(b@) && sha256_spec(
            session_create_json(a@),
        ) == sha256_spec(session_create_json(b@))),
{
    lemma_cancel_tail(
        sha256_spec(session_create_json(a@)),
        sha256_spec(session_create_json(b@)),
        Seq::new(32, |i: int| 0u8),
    );
    if session_create_json(a@) == session_create_json(b@) {
        lemma_session_create_json_injective(a@, b@);
    }
}

/// The second message: the enclave publishes the key of the session opened under
/// `nonce`.
pub struct SessionSetPubKey {
    nonce: Nonce,
    pub_key: Vec<u8>,
}

/// A `SessionSetPubKey` seen as values.
pub struct SessionSetPubKeyView {
    pub nonce: Seq<u8>,
    pub pub_key: Seq<u8>,
}

impl View for SessionSetPubKey {
    type V = SessionSetPubKeyView;

    closed spec fn view(&self) -> SessionSetPubKeyView {
        SessionSetPubKeyView { nonce: self.nonce@, pub_key: self.pub_key@ }
    }
}

/// The JSON text of a `SessionSetPubKey`, which its report data is the digest of.
pub open spec fn session_set_pub_key_json(m: SessionSetPubKeyView) -> Seq<u8> {
    "{\"nonce\":".spec_bytes() + quoted(encode_hex_spec(m.nonce)) + ",\"pub_key\":".spec_bytes()
        + quoted(encode_hex_spec(m.pub_key)) + "}".spec_bytes()
}

impl SessionSetPubKey {
    /// The message for a nonce and the SEC1 encoding of the session's public key.
    pub fn new(nonce: Nonce, pub_key: Vec<u8>) -> (r: Self)
        ensures
            r@.nonce == nonce@,
            r@.pub_key == pub_key@,
    {
        Self { nonce, pub_key }
    }

    /// The nonce and the public key, apart.
    pub fn into_tuple(self) -> (r: (Nonce, Vec<u8>))
        ensures
            r.0@ == self@.nonce,
            r.1@ == self@.pub_key,
    {
        (self.nonce, self.pub_key)
    }

    /// The nonce of the session.
    pub fn nonce(&self) -> (r: &Nonce)
        ensures
            r@ == self@.nonce,
    {
        &self.nonce
    }

    /// The SEC1 encoding of the session's public key.
    pub fn pub_key(&self) -> (r: &[u8])
        ensures
            r@ == self@.pub_key,
    {
        self.pub_key.as_slice()
    }

    /// The JSON text of the message.
    pub fn to_json(&self) -> (r: Vec<u8>)
        ensures
            r@ == session_set_pub_key_json(self@),
    {
        let mut out: Vec<u8> = Vec::new();
        push_text(&mut out, "{\"nonce\":");
        push_hex(&mut out, self.nonce.as_slice());
        push_text(&mut out, ",\"pub_key\":");
        push_hex(&mut out, self.pub_key.as_slice());
        push_text(&mut out, "}");
        proof {
            assert(out@ =~= session_set_pub_key_json(self@));
        }
        out
    }
}

impl HasUserData for SessionSetPubKey {
    open spec fn user_data_spec(&self) -> Seq<u8> {
        pad_digest(sha256_spec(session_set_pub_key_json(self@)))
    }

    fn user_data(&self) -> (r: UserData) {
        let json = self.to_json();
        let digest = sha256(json.as_slice());
        user_data_of_digest(&digest)
    }
}

/// The wire form of a `SessionSetPubKey`: both fields as hex text.
pub struct RawSessionSetPubKey {
    pub nonce: Vec<u8>,
    pub pub_key: Vec<u8>,
}

/// The wire form of a `SessionSetPubKey` seen as values.
pub struct RawSessionSetPubKeyView {
    pub nonce: Seq<u8>,
    pub pub_key: Seq<u8>,
}

impl View for RawSessionSetPubKey {
    type V = RawSessionSetPubKeyView;

    open spec fn view(&self) -> RawSessionSetPubKeyView {
        RawSessionSetPubKeyView { nonce: self.nonce@, pub_key: self.pub_key@ }
    }
}

impl HasDomainType for RawSessionSetPubKey {
    type DomainType = SessionSetPubKey;

    open spec fn valid(d: SessionSetPubKeyView) -> bool {
        d.nonce.len() == 32 && is_sec1_point(d.pub_key)
    }

    open spec fn to_domain_spec(raw: RawSessionSetPubKeyView) -> Result<
        SessionSetPubKeyView,
        StdError,
    > {
        match decode_hex_spec(raw.nonce) {
            None => Err(StdError::InvalidHex),
            Some(nonce) => if nonce.len() != 32 {
                Err(StdError::InvalidDataSize { expected: 32, actual: nonce.len() as u64 })
            } else {
                match decode_hex_spec(raw.pub_key) {
                    None => Err(StdError::InvalidHex),
                    Some(pub_key) => if is_sec1_point(pub_key) {
                        Ok(SessionSetPubKeyView { nonce, pub_key })
                    } else {
                        Err(StdError::InvalidPubKey)
                    },
                }
            },
        }
    }

    open spec fn from_domain_spec(d: SessionSetPubKeyView) -> RawSessionSetPubKeyView {
        RawSessionSetPubKeyView {
            nonce: encode_hex_spec(d.nonce),
            pub_key: encode_hex_spec(d.pub_key),
        }
    }

    proof fn lemma_round_trip(d: SessionSetPubKeyView) {
        lemma_hex_round_trip(d.nonce);
        lemma_hex_round_trip(d.pub_key);
    }

    fn to_domain(self) -> (r: Result<SessionSetPubKey, StdError>) {
        let nonce_bytes = match decode_hex(self.nonce.as_slice()) {
            Some(n) => n,
            None => {
                return Err(StdError::InvalidHex);
            },
        };
        let nonce = match to_array_32(nonce_bytes.as_slice()) {
            Ok(n) => n,
            Err(e) => {
                return Err(e);
            },
        };
        let pub_key = match decode_hex(self.pub_key.as_slice()) {
            Some(k) => k,
            None => {
                return Err(StdError::InvalidHex);
            },
        };
        if !check_sec1_point(pub_key.as_slice()) {
            return Err(StdError::InvalidPubKey);
        }
        Ok(SessionSetPubKey { nonce, pub_key })
    }

    fn from_domain(d: SessionSetPubKey) -> (r: Self) {
        RawSessionSetPubKey {
            nonce: encode_hex(d.nonce.as_slice()),
            pub_key: encode_hex(d.pub_key.as_slice()),
        }
    }
}

/// Two key-publishing messages with the same JSON text are the same message.
pub proof fn lemma_session_set_pub_key_json_injective(
    a: SessionSetPubKeyView,
    b: SessionSetPubKeyView,
)
    requires
        a.nonce.len() == 32,
        b.nonce.len() == 32,
        session_set_pub_key_json(a) == session_set_pub_key_json(b),
    ensures
        a == b,
{
    let head = "{\"nonce\":".spec_bytes();
    let mid = ",\"pub_key\":".spec_bytes();
    let tail = "}".spec_bytes();
    let ha = quoted(encode_hex_spec(a.nonce));
    let hb = quoted(encode_hex_spec(b.nonce));
    let ka = quoted(encode_hex_spec(a.pub_key));
    let kb = quoted(encode_hex_spec(b.pub_key));
    let ra = mid + ka + tail;
    let rb = mid + kb + tail;
    assert(session_set_pub_key_json(a) =~= head + (ha + ra));
    assert(session_set_pub_key_json(b) =~= head + (hb + rb));
    lemma_cancel_head(head, ha + ra, hb + rb);
    assert(ha.len() == hb.len());
    lemma_split_same(ha, ra, hb, rb);
    assert(encode_hex_spec(a.nonce) =~= ha.subrange(1, ha.len() - 1));
    assert(encode_hex_spec(b.nonce) =~= hb.subrange(1, hb.len() - 1));
    lemma_hex_round_trip(a.nonce);
    lemma_hex_round_trip(b.nonce);
    assert(a.nonce == b.nonce);
    assert(ra =~= mid + (ka + tail));
    assert(rb =~= mid + (kb + tail));
    lemma_cancel_head(mid, ka + tail, kb + tail);
    lemma_cancel_tail(ka, kb, tail);
    assert(encode_hex_spec(a.pub_key) =~= ka.subrange(1, ka.len() - 1));
    assert(encode_hex_spec(b.pub_key) =~= kb.subrange(1, kb.len() - 1));
    lemma_hex_round_trip(a.pub_key);
    lemma_hex_round_trip(b.pub_key);
}

/// The report data of two different key-publishing messages differs, unless
/// SHA-256 gives two different texts the same digest.
pub proof fn lemma_session_set_pub_key_binding(a: SessionSetPubKey, b: SessionSetPubKey)
    requires
        a@.nonce.len() == 32,
        b@.nonce.len() == 32,
        a.user_data_spec() == b.user_data_spec(),
    ensures
        a@ == b@ || (session_set_pub_key_json(a@) != session_set_pub_key_json(b@) && sha256_spec(
            session_set_pub_key_json(a@),
        ) == sha256_spec(session_set_pub_key_json(b@))),
{
    lemma_cancel_tail(
        sha256_spec(session_set_pub_key_json(a@)),
        sha256_spec(session_set_pub_key_json(b@)),
        Seq::new(32, |i: int| 0u8),
    );
    if session_set_pub_key_json(a@) == session_set_pub_key_json(b@) {
        lemma_session_set_pub_key_json_injective(a@, b@);
    }
}

} // verus!
