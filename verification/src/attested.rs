//! Messages together with the attestation that an enclave produced for them, in
//! their domain and wire forms, and the one place where attestations are judged.

use vstd::prelude::*;
use crate::hex::{decode_hex, decode_hex_spec, encode_hex, encode_hex_spec, lemma_hex_round_trip};
use crate::quote::{is_quote, quote_mr_enclave, quote_report_data, Quote};
use crate::state::{same_32, same_64, to_array_64, MrEnclave, StdError, UserData};

verus! {

/// A message together with its attestation.
pub struct Attested<M, A> {
    pub msg: M,
    pub attestation: A,
}

impl<M, A> Attested<M, A> {
    /// Pairs a message with its attestation.
    pub fn new(msg: M, attestation: A) -> (r: Self)
        ensures
            r.msg == msg,
            r.attestation == attestation,
    {
        Self { msg, attestation }
    }

    /// The message and the attestation, apart.
    pub fn into_tuple(self) -> (r: (M, A))
        ensures
            r.0 == self.msg,
            r.1 == self.attestation,
    {
        (self.msg, self.attestation)
    }

    /// The message.
    pub fn msg(&self) -> (r: &M)
        ensures
            *r == self.msg,
    {
        &self.msg
    }

    /// The attestation.
    pub fn attestation(&self) -> (r: &A)
        ensures
            *r == self.attestation,
    {
        &self.attestation
    }
}

impl<M: View, A: View> View for Attested<M, A> {
    type V = (M::V, A::V);

    open spec fn view(&self) -> (M::V, A::V) {
        (self.msg@, self.attestation@)
    }
}

/// The wire form of an attested message.
pub struct RawAttested<RM, RA> {
    pub msg: RM,
    pub attestation: RA,
}

impl<RM: View, RA: View> View for RawAttested<RM, RA> {
    type V = (RM::V, RA::V);

    open spec fn view(&self) -> (RM::V, RA::V) {
        (self.msg@, self.attestation@)
    }
}

/// A wire form and the domain form that it is read into and written from.
pub trait HasDomainType: Sized + View {
    type DomainType: View;

    /// Whether a domain value is one that the wire can carry.
    spec fn valid(d: <Self::DomainType as View>::V) -> bool;

    /// What a wire value reads as.
    spec fn to_domain_spec(raw: Self::V) -> Result<<Self::DomainType as View>::V, StdError>;

    /// What a domain value is written as.
    spec fn from_domain_spec(d: <Self::DomainType as View>::V) -> Self::V;

    /// What was written from a domain value reads back as that value.
    proof fn lemma_round_trip(d: <Self::DomainType as View>::V)
        requires
            Self::valid(d),
        ensures
            Self::to_domain_spec(Self::from_domain_spec(d)) == Ok::<
                <Self::DomainType as View>::V,
                StdError,
            >(d),
    ;

    /// Reads a wire value.
    fn to_domain(self) -> (r: Result<Self::DomainType, StdError>)
        ensures
            r matches Ok(d) ==> Self::to_domain_spec(self@) == Ok::<
                <Self::DomainType as View>::V,
                StdError,
            >(d@) && Self::valid(d@),
            r matches Err(e) ==> Self::to_domain_spec(self@) == Err::<
                <Self::DomainType as View>::V,
                StdError,
            >(e),
    ;

    /// Writes a domain value.
    fn from_domain(d: Self::DomainType) -> (r: Self)
        ensures
            r@ == Self::from_domain_spec(d@),
    ;
}

impl<RM: HasDomainType, RA: HasDomainType> HasDomainType for RawAttested<RM, RA> {
    type DomainType = Attested<RM::DomainType, RA::DomainType>;

    open spec fn valid(d: (<RM::DomainType as View>::V, <RA::DomainType as View>::V)) -> bool {
        RM::valid(d.0) && RA::valid(d.1)
    }

    open spec fn to_domain_spec(raw: (RM::V, RA::V)) -> Result<
        (<RM::DomainType as View>::V, <RA::DomainType as View>::V),
        StdError,
    > {
        match RM::to_domain_spec(raw.0) {
            Err(e) => Err(e),
            Ok(m) => match RA::to_domain_spec(raw.1) {
                Err(e) => Err(e),
                Ok(a) => Ok((m, a)),
            },
        }
    }

    open spec fn from_domain_spec(
        d: (<RM::DomainType as View>::V, <RA::DomainType as View>::V),
    ) -> (RM::V, RA::V) {
        (RM::from_domain_spec(d.0), RA::from_domain_spec(d.1))
    }

    proof fn lemma_round_trip(d: (<RM::DomainType as View>::V, <RA::DomainType as View>::V)) {
        RM::lemma_round_trip(d.0);
        RA::lemma_round_trip(d.1);
    }

    fn to_domain(self) -> (r: Result<Attested<RM::DomainType, RA::DomainType>, StdError>) {
        let msg = match self.msg.to_domain() {
            Ok(m) => m,
            Err(e) => {
                return Err(e);
            },
        };
        let attestation = match self.attestation.to_domain() {
            Ok(a) => a,
            Err(e) => {
                return Err(e);
            },
        };
        Ok(Attested { msg, attestation })
    }

    fn from_domain(d: Attested<RM::DomainType, RA::DomainType>) -> (r: Self) {
        RawAttested { msg: RM::from_domain(d.msg), attestation: RA::from_domain(d.attestation) }
    }
}

/// What can be attested: a value that yields the report data binding it.
pub trait HasUserData {
    /// The report data of the value.
    spec fn user_data_spec(&self) -> Seq<u8>;

    /// The report data of the value.
    fn user_data(&self) -> (r: UserData)
        ensures
            r@ == self.user_data_spec(),
    ;
}

/// An attestation: it names the code that produced it.
pub trait Attestation {
    /// The measurement of the enclave that made the attestation.
    spec fn mr_enclave_spec(&self) -> Seq<u8>;

    /// The measurement of the enclave that made the attestation.
    fn mr_enclave(&self) -> (r: MrEnclave)
        ensures
            r@ == self.mr_enclave_spec(),
    ;
}

/// The value that is attested where only a quote is wanted: 64 zero bytes.
pub struct NullUserData;

impl HasUserData for NullUserData {
    open spec fn user_data_spec(&self) -> Seq<u8> {
        Seq::new(64, |i: int| 0u8)
    }

    fn user_data(&self) -> (r: UserData) {
        crate::state::zeros_64()
    }
}

/// Whether `ciborium` reads a CBOR value from the start of `bytes`.
pub uninterp spec fn is_cbor(bytes: Seq<u8>) -> bool;

/// Calls `ciborium::from_reader` for a `ciborium::Value`. Trusted: whether a value
/// is read depends on the bytes alone. Nothing is claimed of which bytes are
/// CBOR.
#[verifier::external_body]
fn check_cbor(bytes: &[u8]) -> (r: bool)
    ensures
        r == is_cbor(bytes@),
{
    ciborium::from_reader::<ciborium::Value, &[u8]>(bytes).is_ok()
}

/// A DCAP attestation: a quote and the collateral to verify it with, as CBOR.
pub struct DcapAttestation {
    quote: Quote,
    collateral: Vec<u8>,
}

/// A DCAP attestation seen as values: the quote's bytes and the collateral's bytes.
pub struct DcapAttestationView {
    pub quote: Seq<u8>,
    pub collateral: Seq<u8>,
}

impl View for DcapAttestation {
    type V = DcapAttestationView;

    closed spec fn view(&self) -> DcapAttestationView {
        DcapAttestationView { quote: self.quote@, collateral: self.collateral@ }
    }
}

impl DcapAttestation {
    /// The collateral is CBOR.
    #[verifier::type_invariant]
    closed spec fn collateral_is_cbor(&self) -> bool {
        is_cbor(self.collateral@)
    }

    /// Pairs a quote with its collateral, which must be CBOR.
    pub fn new(quote: Quote, collateral: Vec<u8>) -> (r: Result<Self, StdError>)
        ensures
            is_cbor(collateral@) ==> (r matches Ok(a) && a@.quote == quote@ && a@.collateral
                == collateral@),
            !is_cbor(collateral@) ==> (r matches Err(e) && e == StdError::ParseCollateral),
    {
        if !check_cbor(collateral.as_slice()) {
            return Err(StdError::ParseCollateral);
        }
        Ok(Self { quote, collateral })
    }

    /// Reads the attestation from its wire form: quote and collateral as hex
    /// text. What was written from an attestation reads back as that attestation.
    pub fn try_from(raw: RawDcapAttestation) -> (r: Result<DcapAttestation, StdError>)
        ensures
            r matches Ok(a) ==> RawDcapAttestation::to_domain_spec(raw@) == Ok::<
                DcapAttestationView,
                StdError,
            >(a@),
            r matches Err(e) ==> RawDcapAttestation::to_domain_spec(raw@) == Err::<
                DcapAttestationView,
                StdError,
            >(e),
    {
        raw.to_domain()
    }

    /// The quote and the collateral, apart.
    pub fn into_tuple(self) -> (r: (Quote, Vec<u8>))
        ensures
            r.0@ == self@.quote,
            r.1@ == self@.collateral,
    {
        (self.quote, self.collateral)
    }

    /// The quote's bytes.
    pub fn quote_bytes(&self) -> (r: &[u8])
        ensures
            r@ == self@.quote,
            is_quote(self@.quote),
    {
        self.quote.as_bytes()
    }

    /// The collateral's bytes.
    pub fn collateral_bytes(&self) -> (r: &[u8])
        ensures
            r@ == self@.collateral,
            is_cbor(self@.collateral),
    {
        proof {
            use_type_invariant(self);
        }
        self.collateral.as_slice()
    }
}

impl HasUserData for DcapAttestation {
    open spec fn user_data_spec(&self) -> Seq<u8> {
        quote_report_data(self@.quote)
    }

    fn user_data(&self) -> (r: UserData) {
        self.quote.report_data()
    }
}

impl Attestation for DcapAttestation {
    open spec fn mr_enclave_spec(&self) -> Seq<u8> {
        quote_mr_enclave(self@.quote)
    }

    fn mr_enclave(&self) -> (r: MrEnclave) {
        self.quote.mr_enclave()
    }
}

/// The wire form of a DCAP attestation: quote and collateral as hex text.
pub struct RawDcapAttestation {
    pub quote: Vec<u8>,
    pub collateral: Vec<u8>,
}

/// The wire form of a DCAP attestation seen as values.
pub struct RawDcapAttestationView {
    pub quote: Seq<u8>,
    pub collateral: Seq<u8>,
}

impl View for RawDcapAttestation {
    type V = RawDcapAttestationView;

    open spec fn view(&self) -> RawDcapAttestationView {
        RawDcapAttestationView { quote: self.quote@, collateral: self.collateral@ }
    }
}

impl HasDomainType for RawDcapAttestation {
    type DomainType = DcapAttestation;

    open spec fn valid(d: DcapAttestationView) -> bool {
        is_quote(d.quote) && is_cbor(d.collateral)
    }

    open spec fn to_domain_spec(raw: RawDcapAttestationView) -> Result<
        DcapAttestationView,
        StdError,
    > {
        match (decode_hex_spec(raw.quote), decode_hex_spec(raw.collateral)) {
            (None, _) => Err(StdError::InvalidHex),
            (_, None) => Err(StdError::InvalidHex),
            (Some(q), Some(c)) => if !is_quote(q) {
                Err(StdError::ParseQuote)
            } else if !is_cbor(c) {
                Err(StdError::ParseCollateral)
            } else {
                Ok(DcapAttestationView { quote: q, collateral: c })
            },
        }
    }

    open spec fn from_domain_spec(d: DcapAttestationView) -> RawDcapAttestationView {
        RawDcapAttestationView {
            quote: encode_hex_spec(d.quote),
            collateral: encode_hex_spec(d.collateral),
        }
    }

    proof fn lemma_round_trip(d: DcapAttestationView) {
        lemma_hex_round_trip(d.quote);
        lemma_hex_round_trip(d.collateral);
    }

    fn to_domain(self) -> (r: Result<DcapAttestation, StdError>) {
        let quote_bytes = match decode_hex(self.quote.as_slice()) {
            Some(q) => q,
            None => {
                return Err(StdError::InvalidHex);
            },
        };
        let collateral = match decode_hex(self.collateral.as_slice()) {
            Some(c) => c,
            None => {
                return Err(StdError::InvalidHex);
            },
        };
        let quote = match Quote::parse(quote_bytes.as_slice()) {
            Ok(q) => q,
            Err(_) => {
                return Err(StdError::ParseQuote);
            },
        };
        if !check_cbor(collateral.as_slice()) {
            return Err(StdError::ParseCollateral);
        }
        Ok(DcapAttestation { quote, collateral })
    }

    fn from_domain(d: DcapAttestation) -> (r: Self)
        ensures
            Self::to_domain_spec(r@) == Ok::<DcapAttestationView, StdError>(d@),
    {
        let quote = encode_hex(d.quote_bytes());
        let collateral = encode_hex(d.collateral_bytes());
        proof {
            Self::lemma_round_trip(d@);
        }
        RawDcapAttestation { quote, collateral }
    }
}

/// The attestation of a mock enclave: the report data itself.
pub struct MockAttestation(pub UserData);

impl View for MockAttestation {
    type V = Seq<u8>;

    open spec fn view(&self) -> Seq<u8> {
        self.0@
    }
}

impl Default for MockAttestation {
    fn default() -> (r: Self)
        ensures
            r@ == Seq::new(64, |i: int| 0u8),
    {
        MockAttestation(crate::state::zeros_64())
    }
}

impl HasUserData for MockAttestation {
    open spec fn user_data_spec(&self) -> Seq<u8> {
        self@
    }

    fn user_data(&self) -> (r: UserData) {
        self.0
    }
}

impl Attestation for MockAttestation {
    open spec fn mr_enclave_spec(&self) -> Seq<u8> {
        Seq::new(32, |i: int| 0u8)
    }

    fn mr_enclave(&self) -> (r: MrEnclave) {
        crate::state::zeros_32()
    }
}

/// The wire form of a mock attestation: the report data as hex text.
pub struct RawMockAttestation(pub Vec<u8>);

impl View for RawMockAttestation {
    type V = Seq<u8>;

    open spec fn view(&self) -> Seq<u8> {
        self.0@
    }
}

impl HasDomainType for RawMockAttestation {
    type DomainType = MockAttestation;

    open spec fn valid(d: Seq<u8>) -> bool {
        d.len() == 64
    }

    open spec fn to_domain_spec(raw: Seq<u8>) -> Result<Seq<u8>, StdError> {
        match decode_hex_spec(raw) {
            None => Err(StdError::InvalidHex),
            Some(data) => if data.len() == 64 {
                Ok(data)
            } else {
                Err(StdError::InvalidDataSize { expected: 64, actual: data.len() as u64 })
            },
        }
    }

    open spec fn from_domain_spec(d: Seq<u8>) -> Seq<u8> {
        encode_hex_spec(d)
    }

    proof fn lemma_round_trip(d: Seq<u8>) {
        lemma_hex_round_trip(d);
    }

    fn to_domain(self) -> (r: Result<MockAttestation, StdError>) {
        let data = match decode_hex(self.0.as_slice()) {
            Some(d) => d,
            None => {
                return Err(StdError::InvalidHex);
            },
        };
        match to_array_64(data.as_slice()) {
            Ok(a) => Ok(MockAttestation(a)),
            Err(e) => Err(e),
        }
    }

    fn from_domain(d: MockAttestation) -> (r: Self) {
        RawMockAttestation(encode_hex(d.0.as_slice()))
    }
}

/// An attestation of either kind, for where the kind is known only when a message
/// arrives.
pub enum AnyAttestation {
    Dcap(DcapAttestation),
    Mock(MockAttestation),
}

/// An attestation of either kind as values.
pub enum AnyAttestationView {
    Dcap(DcapAttestationView),
    Mock(Seq<u8>),
}

impl View for AnyAttestation {
    type V = AnyAttestationView;

    open spec fn view(&self) -> AnyAttestationView {
        match *self {
            AnyAttestation::Dcap(a) => AnyAttestationView::Dcap(a@),
            AnyAttestation::Mock(a) => AnyAttestationView::Mock(a@),
        }
    }
}

impl HasUserData for AnyAttestation {
    open spec fn user_data_spec(&self) -> Seq<u8> {
        match *self {
            AnyAttestation::Dcap(a) => a.user_data_spec(),
            AnyAttestation::Mock(a) => a.user_data_spec(),
        }
    }

    fn user_data(&self) -> (r: UserData) {
        match self {
            AnyAttestation::Dcap(a) => a.user_data(),
            AnyAttestation::Mock(a) => a.user_data(),
        }
    }
}

impl Attestation for AnyAttestation {
    open spec fn mr_enclave_spec(&self) -> Seq<u8> {
        match *self {
            AnyAttestation::Dcap(a) => a.mr_enclave_spec(),
            AnyAttestation::Mock(a) => a.mr_enclave_spec(),
        }
    }

    fn mr_enclave(&self) -> (r: MrEnclave) {
        match self {
            AnyAttestation::Dcap(a) => a.mr_enclave(),
            AnyAttestation::Mock(a) => a.mr_enclave(),
        }
    }
}

impl AnyAttestation {
    /// Whether the attestation carries evidence of a platform, which a verifier of
    /// such evidence has to judge. A mock attestation carries none.
    pub fn needs_evidence(&self) -> (r: bool)
        ensures
            r == (*self is Dcap),
    {
        match self {
            AnyAttestation::Dcap(_) => true,
            AnyAttestation::Mock(_) => false,
        }
    }
}

/// The wire form of an attestation of either kind.
pub enum RawAnyAttestation {
    Dcap(RawDcapAttestation),
    Mock(RawMockAttestation),
}

/// The wire form of an attestation of either kind as values.
pub enum RawAnyAttestationView {
    Dcap(RawDcapAttestationView),
    Mock(Seq<u8>),
}

impl View for RawAnyAttestation {
    type V = RawAnyAttestationView;

    open spec fn view(&self) -> RawAnyAttestationView {
        match *self {
            RawAnyAttestation::Dcap(a) => RawAnyAttestationView::Dcap(a@),
            RawAnyAttestation::Mock(a) => RawAnyAttestationView::Mock(a@),
        }
    }
}

impl HasDomainType for RawAnyAttestation {
    type DomainType = AnyAttestation;

    open spec fn valid(d: AnyAttestationView) -> bool {
        match d {
            AnyAttestationView::Dcap(a) => RawDcapAttestation::valid(a),
            AnyAttestationView::Mock(a) => RawMockAttestation::valid(a),
        }
    }

    open spec fn to_domain_spec(raw: RawAnyAttestationView) -> Result<AnyAttestationView, StdError> {
        match raw {
            RawAnyAttestationView::Dcap(a) => match RawDcapAttestation::to_domain_spec(a) {
                Ok(d) => Ok(AnyAttestationView::Dcap(d)),
                Err(e) => Err(e),
            },
            RawAnyAttestationView::Mock(a) => match RawMockAttestation::to_domain_spec(a) {
                Ok(d) => Ok(AnyAttestationView::Mock(d)),
                Err(e) => Err(e),
            },
        }
    }

    open spec fn from_domain_spec(d: AnyAttestationView) -> RawAnyAttestationView {
        match d {
            AnyAttestationView::Dcap(a) => RawAnyAttestationView::Dcap(
                RawDcapAttestation::from_domain_spec(a),
            ),
            AnyAttestationView::Mock(a) => RawAnyAttestationView::Mock(
                RawMockAttestation::from_domain_spec(a),
            ),
        }
    }

    proof fn lemma_round_trip(d: AnyAttestationView) {
        match d {
            AnyAttestationView::Dcap(a) => {
                RawDcapAttestation::lemma_round_trip(a);
            },
            AnyAttestationView::Mock(a) => {
                RawMockAttestation::lemma_round_trip(a);
            },
        }
    }

    fn to_domain(self) -> (r: Result<AnyAttestation, StdError>) {
        match self {
            RawAnyAttestation::Dcap(a) => match a.to_domain() {
                Ok(d) => Ok(AnyAttestation::Dcap(d)),
                Err(e) => Err(e),
            },
            RawAnyAttestation::Mock(a) => match a.to_domain() {
                Ok(d) => Ok(AnyAttestation::Mock(d)),
                Err(e) => Err(e),
            },
        }
    }

    fn from_domain(d: AnyAttestation) -> (r: Self) {
        match d {
            AnyAttestation::Dcap(a) => RawAnyAttestation::Dcap(RawDcapAttestation::from_domain(a)),
            AnyAttestation::Mock(a) => RawAnyAttestation::Mock(RawMockAttestation::from_domain(a)),
        }
    }
}

/// A message that is attested but has no handler of its own.
pub struct AttestedMsgSansHandler<T>(pub T);

impl<T: View> View for AttestedMsgSansHandler<T> {
    type V = T::V;

    open spec fn view(&self) -> T::V {
        self.0@
    }
}

/// The wire form of a message that is attested but has no handler of its own.
pub struct RawAttestedMsgSansHandler<T>(pub T);

impl<T: View> View for RawAttestedMsgSansHandler<T> {
    type V = T::V;

    open spec fn view(&self) -> T::V {
        self.0@
    }
}

impl<T: HasUserData> HasUserData for AttestedMsgSansHandler<T> {
    open spec fn user_data_spec(&self) -> Seq<u8> {
        self.0.user_data_spec()
    }

    fn user_data(&self) -> (r: UserData) {
        self.0.user_data()
    }
}

impl<T: View> HasDomainType for RawAttestedMsgSansHandler<T> {
    type DomainType = AttestedMsgSansHandler<T>;

    open spec fn valid(d: T::V) -> bool {
        true
    }

    open spec fn to_domain_spec(raw: T::V) -> Result<T::V, StdError> {
        Ok(raw)
    }

    open spec fn from_domain_spec(d: T::V) -> T::V {
        d
    }

    proof fn lemma_round_trip(d: T::V) {
    }

    fn to_domain(self) -> (r: Result<AttestedMsgSansHandler<T>, StdError>) {
        Ok(AttestedMsgSansHandler(self.0))
    }

    fn from_domain(d: AttestedMsgSansHandler<T>) -> (r: Self)
        ensures
            Self::to_domain_spec(r@) == Ok::<T::V, StdError>(d@),
    {
        RawAttestedMsgSansHandler(d.0)
    }
}

impl<T: View> AttestedMsgSansHandler<T> {
    /// Reads the message from its wire form, which never fails: the message is
    /// the one that the wire form holds.
    pub fn try_from(raw: RawAttestedMsgSansHandler<T>) -> (r: Result<
        AttestedMsgSansHandler<T>,
        StdError,
    >)
        ensures
            r matches Ok(m) && m@ == raw@ && m.0 == raw.0,
    {
        Ok(AttestedMsgSansHandler(raw.0))
    }
}

/// Why an attestation was not accepted.
#[derive(Clone, Copy, Debug, PartialEq, Eq, Structural)]
pub enum AttestationRejected {
    /// The quote's signature chain or the platform's TCB level did not verify.
    Collateral,
    /// The attestation binds other report data than the message's.
    UserData,
    /// The attestation names other code than the expected.
    MrEnclave,
}

/// The verdict on an attestation that reports `user_data` and `mr_enclave`, where
/// `expected_user_data` and `expected_mr_enclave` are wanted and `genuine` says
/// whether the attestation itself verified.
pub open spec fn judge(
    genuine: bool,
    user_data: Seq<u8>,
    mr_enclave: Seq<u8>,
    expected_user_data: Seq<u8>,
    expected_mr_enclave: Seq<u8>,
) -> Result<(), AttestationRejected> {
    if !genuine {
        Err(AttestationRejected::Collateral)
    } else if user_data != expected_user_data {
        Err(AttestationRejected::UserData)
    } else if mr_enclave != expected_mr_enclave {
        Err(AttestationRejected::MrEnclave)
    } else {
        Ok(())
    }
}

/// Judges an attestation against the report data and the code that are expected.
/// `genuine` is what the verifier of the platform's evidence said of the
/// attestation; a mock attestation has no evidence and is taken as genuine.
pub fn verify_attestation<A: HasUserData + Attestation>(
    attestation: &A,
    genuine: bool,
    expected_user_data: &UserData,
    expected_mr_enclave: &MrEnclave,
) -> (r: Result<(), AttestationRejected>)
    ensures
        r == judge(
            genuine,
            attestation.user_data_spec(),
            attestation.mr_enclave_spec(),
            expected_user_data@,
            expected_mr_enclave@,
        ),
{
    if !genuine {
        return Err(AttestationRejected::Collateral);
    }
    let user_data = attestation.user_data();
    if !same_64(&user_data, expected_user_data) {
        return Err(AttestationRejected::UserData);
    }
    let mr_enclave = attestation.mr_enclave();
    if !same_32(&mr_enclave, expected_mr_enclave) {
        return Err(AttestationRejected::MrEnclave);
    }
    Ok(())
}

/// Judges an attested message: the attestation must bind the message's own report
/// data and name the expected code.
pub fn verify_attested<M: HasUserData, A: HasUserData + Attestation>(
    attested: &Attested<M, A>,
    genuine: bool,
    expected_mr_enclave: &MrEnclave,
) -> (r: Result<(), AttestationRejected>)
    ensures
        r == judge(
            genuine,
            attested.attestation.user_data_spec(),
            attested.attestation.mr_enclave_spec(),
            attested.msg.user_data_spec(),
            expected_mr_enclave@,
        ),
{
    let expected = attested.msg.user_data();
    verify_attestation(&attested.attestation, genuine, &expected, expected_mr_enclave)
}

/// Judges an attested message whose attestation is of either kind. The verdict of
/// the platform's verifier counts for a DCAP attestation only; a mock attestation
/// has no evidence to judge.
pub fn verify_any<M: HasUserData>(
    attested: &Attested<M, AnyAttestation>,
    evidence_verifies: bool,
    expected_mr_enclave: &MrEnclave,
) -> (r: Result<(), AttestationRejected>)
    ensures
        r == judge(
            attested.attestation is Mock || evidence_verifies,
            attested.attestation.user_data_spec(),
            attested.attestation.mr_enclave_spec(),
            attested.msg.user_data_spec(),
            expected_mr_enclave@,
        ),
{
    let genuine = !attested.attestation.needs_evidence() || evidence_verifies;
    verify_attested(attested, genuine, expected_mr_enclave)
}

} // verus!
