//! The first message of an enclave: what it is configured with, attested, for the
//! contract to be instantiated with.

use vstd::prelude::*;
use vstd::string::*;
use crate::account::AccountId;
use crate::attested::{verify_attested, Attestation, Attested, HasUserData};
use crate::attestor::Attestor;
use crate::bytes::copy_bytes;
use crate::contract::{ContractError, ContractState};
use crate::crypto::{sha256, sha256_spec};
use crate::decimal::decimal_spec;
use crate::error::{Error, ProtocolError};
use crate::hex::encode_hex_spec;
use crate::light_client::Options;
use crate::processor::Config;
use crate::state::{Height, MrEnclave, UserData};
use crate::wire::{
    check_plain_text, is_plain_text, pad_digest, push_decimal, push_hex, push_quoted, push_text,
    quoted, user_data_of_digest,
};

verus! {

/// The configuration that an enclave attests, as values.
pub struct CoreInstantiateView {
    pub mr_enclave: Seq<u8>,
    pub chain_id: Seq<u8>,
    pub trusted_height: Height,
    pub trusted_hash: Seq<u8>,
    pub options: Options,
}

/// The configuration that an enclave attests: its own measurement and what it
/// trusts of the ledger.
pub struct CoreInstantiate {
    mr_enclave: MrEnclave,
    chain_id: Vec<u8>,
    trusted_height: Height,
    trusted_hash: crate::state::Hash,
    options: Options,
}

impl View for CoreInstantiate {
    type V = CoreInstantiateView;

    closed spec fn view(&self) -> CoreInstantiateView {
        CoreInstantiateView {
            mr_enclave: self.mr_enclave@,
            chain_id: self.chain_id@,
            trusted_height: self.trusted_height,
            trusted_hash: self.trusted_hash@,
            options: self.options,
        }
    }
}

/// The JSON text of a configuration, which its report data is the digest of.
pub open spec fn core_instantiate_json(m: CoreInstantiateView) -> Seq<u8> {
    "{\"config\":{\"mr_enclave\":".spec_bytes() + quoted(encode_hex_spec(m.mr_enclave))
        + ",\"light_client_opts\":{\"chain_id\":".spec_bytes() + quoted(m.chain_id)
        + ",\"trusted_height\":".spec_bytes() + decimal_spec(m.trusted_height as nat)
        + ",\"trusted_hash\":".spec_bytes() + quoted(encode_hex_spec(m.trusted_hash))
        + ",\"trust_threshold\":[".spec_bytes() + decimal_spec(
        m.options.trust_threshold.numerator as nat,
    ) + ",".spec_bytes() + decimal_spec(m.options.trust_threshold.denominator as nat)
        + "],\"trusting_period\":".spec_bytes() + decimal_spec(m.options.trusting_period as nat)
        + ",\"max_clock_drift\":".spec_bytes() + decimal_spec(m.options.clock_drift as nat)
        + ",\"max_block_lag\":".spec_bytes() + decimal_spec(m.options.max_block_lag as nat)
        + "}}}".spec_bytes()
}

impl CoreInstantiate {
    /// The message for a measurement and what the enclave trusts of the ledger.
    pub fn new(
        mr_enclave: MrEnclave,
        chain_id: Vec<u8>,
        trusted_height: Height,
        trusted_hash: crate::state::Hash,
        options: Options,
    ) -> (r: Self)
        ensures
            r@ == (CoreInstantiateView {
                mr_enclave: mr_enclave@,
                chain_id: chain_id@,
                trusted_height,
                trusted_hash: trusted_hash@,
                options,
            }),
    {
        CoreInstantiate { mr_enclave, chain_id, trusted_height, trusted_hash, options }
    }

    /// The measurement that the message names.
    pub fn mr_enclave(&self) -> (r: MrEnclave)
        ensures
            r@ == self@.mr_enclave,
    {
        self.mr_enclave
    }

    /// The JSON text of the message.
    pub fn to_json(&self) -> (r: Vec<u8>)
        ensures
            r@ == core_instantiate_json(self@),
    {
        let mut out: Vec<u8> = Vec::new();
        push_text(&mut out, "{\"config\":{\"mr_enclave\":");
        push_hex(&mut out, self.mr_enclave.as_slice());
        push_text(&mut out, ",\"light_client_opts\":{\"chain_id\":");
        push_quoted(&mut out, self.chain_id.as_slice());
        push_text(&mut out, ",\"trusted_height\":");
        push_decimal(&mut out, self.trusted_height as u128);
        push_text(&mut out, ",\"trusted_hash\":");
        push_hex(&mut out, self.trusted_hash.as_slice());
        push_text(&mut out, ",\"trust_threshold\":[");
        push_decimal(&mut out, self.options.trust_threshold.numerator as u128);
        push_text(&mut out, ",");
        push_decimal(&mut out, self.options.trust_threshold.denominator as u128);
        push_text(&mut out, "],\"trusting_period\":");
        push_decimal(&mut out, self.options.trusting_period as u128);
        push_text(&mut out, ",\"max_clock_drift\":");
        push_decimal(&mut out, self.options.clock_drift as u128);
        push_text(&mut out, ",\"max_block_lag\":");
        push_decimal(&mut out, self.options.max_block_lag as u128);
        push_text(&mut out, "}}}");
        proof {
            assert(out@ =~= core_instantiate_json(self@));
        }
        out
    }
}

impl HasUserData for CoreInstantiate {
    open spec fn user_data_spec(&self) -> Seq<u8> {
        pad_digest(sha256_spec(core_instantiate_json(self@)))
    }

    fn user_data(&self) -> (r: UserData) {
        let json = self.to_json();
        let digest = sha256(json.as_slice());
        user_data_of_digest(&digest)
    }
}

/// Attests the enclave's configuration under the attestor's own measurement. A
/// chain id that cannot be written as it is, is refused.
pub fn instantiate<A: Attestor>(config: &Config, attestor: &A) -> (r: Result<
    Attested<CoreInstantiate, Vec<u8>>,
    Error,
>)
    ensures
        !is_plain_text(config.light_client_opts.chain_id@) ==> (r matches Err(e) && e
            == Error::Protocol(ProtocolError::MalformedAddress)),
        is_plain_text(config.light_client_opts.chain_id@) ==> (r matches Err(e) ==> e
            == Error::Attestor),
        r matches Ok(attested) ==> {
            &&& attestor.measures(attested.msg@.mr_enclave)
            &&& attestor.attests(attested.attestation@, attested.msg.user_data_spec())
            &&& attested.msg@.chain_id == config.light_client_opts.chain_id@
            &&& attested.msg@.trusted_height == config.light_client_opts.trusted_height
            &&& attested.msg@.trusted_hash == config.light_client_opts.trusted_hash@
            &&& attested.msg@.options == config.light_client_opts.options
        },
{
    if !check_plain_text(config.light_client_opts.chain_id.as_slice()) {
        return Err(Error::Protocol(ProtocolError::MalformedAddress));
    }
    let mr_enclave = match attestor.mr_enclave() {
        Ok(m) => m,
        Err(_) => {
            return Err(Error::Attestor);
        },
    };
    let msg = CoreInstantiate::new(
        mr_enclave,
        copy_bytes(config.light_client_opts.chain_id.as_slice()),
        config.light_client_opts.trusted_height,
        config.light_client_opts.trusted_hash,
        config.light_client_opts.options,
    );
    match attestor.quote(&msg) {
        Ok(quote) => Ok(Attested::new(msg, quote)),
        Err(_) => Err(Error::Attestor),
    }
}

/// Instantiates the contract's state for the enclave whose attested configuration
/// is handed in: the attestation must bind the message and name the measurement
/// that the message itself names.
pub fn instantiate_contract<A: HasUserData + Attestation>(
    address: AccountId,
    attested: &Attested<CoreInstantiate, A>,
    genuine: bool,
) -> (r: Result<ContractState, ContractError>)
    ensures
        match crate::attested::judge(
            genuine,
            attested.attestation.user_data_spec(),
            attested.attestation.mr_enclave_spec(),
            attested.msg.user_data_spec(),
            attested.msg@.mr_enclave,
        ) {
            Ok(()) => r matches Ok(state) && state.address() == address@
                && state.expected_mr_enclave() == attested.msg@.mr_enclave && state.session()
                is None && state.epoch() == 1,
            Err(why) => r matches Err(e) && e == ContractError::AttestationRejected(why),
        },
{
    let expected = attested.msg.mr_enclave();
    match verify_attested(attested, genuine, &expected) {
        Ok(()) => Ok(ContractState::new(address, expected)),
        Err(why) => Err(ContractError::AttestationRejected(why)),
    }
}

} // verus!
