//! Attestors: what produces the quote that binds a message to the enclave's code.

use vstd::prelude::*;
use crate::attested::{judge, Attestation, HasUserData, MockAttestation, NullUserData};
use crate::quote::{mr_enclave_of_quote, quote_mr_enclave, MR_ENCLAVE_AT};
use crate::state::{vec_of_64, MrEnclave};

verus! {

/// The platform gave no quote.
#[derive(Clone, Copy, Debug, PartialEq, Eq, Structural)]
pub struct AttestorError;

/// What produces quotes. A quote binds the report data of a value to the code of
/// the enclave that asked for it.
pub trait Attestor {
    /// Whether `quote` is a quote of this attestor over the report data
    /// `user_data`.
    spec fn attests(&self, quote: Seq<u8>, user_data: Seq<u8>) -> bool;

    /// Whether `mr_enclave` is the measurement that this attestor reports.
    spec fn measures(&self, mr_enclave: Seq<u8>) -> bool;

    /// A quote over the report data of `user_data`.
    fn quote<U: HasUserData>(&self, user_data: &U) -> (r: Result<Vec<u8>, AttestorError>)
        ensures
            r matches Ok(q) ==> self.attests(q@, user_data.user_data_spec()),
    ;

    /// The measurement of the enclave's code.
    fn mr_enclave(&self) -> (r: Result<MrEnclave, AttestorError>)
        ensures
            r matches Ok(m) ==> self.measures(m@),
    ;
}

/// The attestor of an enclave on SGX hardware. Its quotes come from the platform;
/// what is decided here is where in a quote the measurement stands.
#[derive(Clone, Copy, Debug, PartialEq, Eq, Structural)]
pub struct EpidAttestor;

impl EpidAttestor {
    /// The enclave's measurement, read from a quote that the platform gave for
    /// `NullUserData`.
    pub fn mr_enclave_from(&self, quote: &[u8]) -> (r: Result<MrEnclave, AttestorError>)
        ensures
            quote@.len() >= MR_ENCLAVE_AT + 32 ==> (r matches Ok(m) && m@ == quote_mr_enclave(
                quote@,
            )),
            quote@.len() < MR_ENCLAVE_AT + 32 ==> r is Err,
    {
        match mr_enclave_of_quote(quote) {
            Some(m) => Ok(m),
            None => Err(AttestorError),
        }
    }

    /// What is attested to learn the enclave's measurement.
    pub fn null_user_data(&self) -> NullUserData {
        NullUserData
    }
}

/// The attestor of an enclave on SGX hardware. The platform's quote over report
/// data is had through `platform`, which gives none where the platform fails.
pub struct DcapAttestor<P: Fn([u8; 64]) -> Option<Vec<u8>>> {
    platform: P,
}

impl<P: Fn([u8; 64]) -> Option<Vec<u8>>> DcapAttestor<P> {
    /// The platform can be asked for a quote over any report data.
    #[verifier::type_invariant]
    spec fn platform_takes_all(self) -> bool {
        forall|data: [u8; 64]| #[trigger] self.platform.requires((data,))
    }

    /// Whether the platform may give `quote` over `data`.
    pub closed spec fn gives(&self, data: [u8; 64], quote: Vec<u8>) -> bool {
        self.platform.ensures((data,), Some(quote))
    }

    /// Whether the platform may give no quote over `data`.
    pub closed spec fn refuses(&self, data: [u8; 64]) -> bool {
        self.platform.ensures((data,), None)
    }

    /// Whether the platform may give no quote over the report data `user_data`.
    pub open spec fn fails(&self, user_data: Seq<u8>) -> bool {
        exists|data: [u8; 64]| data@ == user_data && #[trigger] self.refuses(data)
    }

    /// The attestor that asks `platform` for its quotes.
    pub fn new(platform: P) -> (r: Self)
        requires
            forall|data: [u8; 64]| #[trigger] platform.requires((data,)),
        ensures
            forall|data: [u8; 64], quote: Vec<u8>| #[trigger]
                r.gives(data, quote) == platform.ensures((data,), Some(quote)),
            forall|data: [u8; 64]| #[trigger] r.refuses(data) == platform.ensures((data,), None),
    {
        DcapAttestor { platform }
    }
}

impl<P: Fn([u8; 64]) -> Option<Vec<u8>>> Attestor for DcapAttestor<P> {
    /// The quote is one that the platform may give over the report data.
    open spec fn attests(&self, quote: Seq<u8>, user_data: Seq<u8>) -> bool {
        exists|data: [u8; 64], q: Vec<u8>|
            data@ == user_data && q@ == quote && #[trigger] self.gives(data, q)
    }

    /// The measurement stands in a quote that the platform may give over the
    /// report data of `NullUserData`.
    open spec fn measures(&self, mr_enclave: Seq<u8>) -> bool {
        exists|q: Seq<u8>| #[trigger]
            self.attests(q, NullUserData.user_data_spec()) && q.len() >= MR_ENCLAVE_AT + 32
                && mr_enclave == quote_mr_enclave(q)
    }

    fn quote<U: HasUserData>(&self, user_data: &U) -> (r: Result<Vec<u8>, AttestorError>)
        ensures
            r is Err ==> self.fails(user_data.user_data_spec()),
    {
        proof {
            use_type_invariant(self);
        }
        let data = user_data.user_data();
        match (self.platform)(data) {
            Some(q) => {
                proof {
                    assert(self.gives(data, q));
                }
                Ok(q)
            },
            None => {
                proof {
                    assert(self.refuses(data));
                }
                Err(AttestorError)
            },
        }
    }

    fn mr_enclave(&self) -> (r: Result<MrEnclave, AttestorError>)
        ensures
            r is Err ==> self.fails(NullUserData.user_data_spec()) || exists|q: Seq<u8>| #[trigger]
                self.attests(q, NullUserData.user_data_spec()) && q.len() < MR_ENCLAVE_AT + 32,
    {
        let quote = match self.quote(&EpidAttestor.null_user_data()) {
            Ok(q) => q,
            Err(e) => {
                return Err(e);
            },
        };
        EpidAttestor.mr_enclave_from(quote.as_slice())
    }
}

/// The attestor of a mock enclave: its quote is the report data itself, and its
/// measurement is zero.
#[derive(Clone, Copy, Debug, PartialEq, Eq, Structural)]
pub struct MockAttestor;

impl Attestor for MockAttestor {
    open spec fn attests(&self, quote: Seq<u8>, user_data: Seq<u8>) -> bool {
        quote == user_data
    }

    open spec fn measures(&self, mr_enclave: Seq<u8>) -> bool {
        mr_enclave == Seq::new(32, |i: int| 0u8)
    }

    fn quote<U: HasUserData>(&self, user_data: &U) -> (r: Result<Vec<u8>, AttestorError>)
        ensures
            r matches Ok(q) && q@ == user_data.user_data_spec(),
    {
        let data = user_data.user_data();
        Ok(vec_of_64(&data))
    }

    fn mr_enclave(&self) -> (r: Result<MrEnclave, AttestorError>)
        ensures
            r matches Ok(m) && m@ == Seq::new(32, |i: int| 0u8),
    {
        Ok(crate::state::zeros_32())
    }
}

impl MockAttestor {
    /// The attestation of a value: its report data.
    pub fn attestation<U: HasUserData>(&self, user_data: &U) -> (r: MockAttestation)
        ensures
            r@ == user_data.user_data_spec(),
    {
        MockAttestation(user_data.user_data())
    }
}

/// What the mock attestor attests verifies: the attestation of a message is
/// accepted for that message and the mock enclave's measurement.
pub proof fn lemma_mock_attestation_verifies<M: HasUserData>(msg: M, attestation: MockAttestation)
    requires
        attestation@ == msg.user_data_spec(),
    ensures
        judge(
            true,
            attestation.user_data_spec(),
            attestation.mr_enclave_spec(),
            msg.user_data_spec(),
            Seq::new(32, |i: int| 0u8),
        ) == Ok::<(), crate::attested::AttestationRejected>(()),
{
}

} // verus!
