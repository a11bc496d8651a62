use quartz::account::AccountId;
use quartz::attested::{
    verify_any, verify_attestation, verify_attested, AnyAttestation, Attestation, Attested,
    AttestationRejected, RawAnyAttestation,
    AttestedMsgSansHandler, DcapAttestation, HasDomainType, HasUserData, MockAttestation,
    NullUserData, RawAttested, RawAttestedMsgSansHandler, RawDcapAttestation,
    RawMockAttestation,
};
use quartz::attestor::{Attestor, AttestorError, DcapAttestor, EpidAttestor, MockAttestor};
use quartz::instantiate::{instantiate, instantiate_contract, CoreInstantiate};
use quartz::contract::ContractError;
use quartz::error::{Error, ProtocolError};
use quartz::light_client::{Options, TrustThreshold};
use quartz::membership::ProofSpec;
use quartz::messages::{
    QueryResponseMessage, RawQueryResponseMsg, RawUpdateMsg, StatusResponseMessage, UpdateMsg,
};
use quartz::processor::Config;
use quartz::proof_of_publication::LightClientOpts;
use quartz::quote::{mr_enclave_of_quote, Quote};
use quartz::session::{RawSessionCreate, RawSessionSetPubKey, SessionCreate, SessionSetPubKey};
use quartz::state::{
    same_32, same_64, to_array_32, to_array_64, vec_of_32, vec_of_64, zeros_32, zeros_64,
    StdError,
};
use sha2::{Digest, Sha256};

fn address(fill: u8) -> String {
    subtle_encoding::bech32::encode("cosmos", [fill; 20])
}

fn contract() -> AccountId {
    AccountId::parse(address(7).as_bytes()).expect("an account id")
}

fn padded(digest: &[u8]) -> Vec<u8> {
    let mut out = digest.to_vec();
    out.extend_from_slice(&[0u8; 32]);
    out
}

fn quote_bytes(mr_enclave: [u8; 32], report_data: [u8; 64], signature_len: u32) -> Vec<u8> {
    let mut q = vec![0u8; 436 + signature_len as usize];
    q[0] = 3;
    q[2] = 2;
    q[112..144].copy_from_slice(&mr_enclave);
    q[368..432].copy_from_slice(&report_data);
    q[432..436].copy_from_slice(&signature_len.to_le_bytes());
    q
}

#[test]
fn account_ids_are_parsed_to_their_canonical_text() {
    let text = address(1);
    let id = AccountId::parse(text.as_bytes()).expect("an account id");
    assert_eq!(id.as_bytes(), text.as_bytes());
    assert_eq!(id.to_bytes(), vec![1u8; 20]);
    let upper = text.to_uppercase();
    let same = AccountId::parse(upper.as_bytes()).expect("an account id in upper case");
    assert_eq!(same.as_bytes(), text.as_bytes());
    assert!(id.same(&same));
    assert!(!id.same(&contract()));
    assert_eq!(id.clone().as_bytes(), text.as_bytes());
}

#[test]
fn what_is_no_account_id_is_refused() {
    assert!(AccountId::parse(b"").is_none());
    assert!(AccountId::parse(b"cosmos1").is_none());
    assert!(AccountId::parse(b"not an address").is_none());
    let mut text = address(1).into_bytes();
    let last = text.len() - 1;
    text[last] = if text[last] == b'q' { b'p' } else { b'q' };
    assert!(AccountId::parse(&text).is_none());
    assert!(AccountId::parse(b"a\"b").is_none());
    assert!(AccountId::parse(&[0xff, 0xfe]).is_none());
}

#[test]
fn session_create_binds_the_digest_of_its_text() {
    let msg = SessionCreate::new([0xab; 32], contract());
    let text = format!(
        r#"{{"nonce":"{}","contract":"{}"}}"#,
        "ab".repeat(32),
        address(7)
    );
    assert_eq!(msg.to_json(), text.clone().into_bytes());
    let digest = Sha256::digest(text.as_bytes());
    assert_eq!(msg.user_data().to_vec(), padded(&digest));
    assert_ne!(msg.user_data().to_vec(), padded(&text.as_bytes()[..32]));
    let other = SessionCreate::new([0xac; 32], contract());
    assert_ne!(msg.user_data(), other.user_data());
    assert_eq!(msg.contract().as_bytes(), address(7).as_bytes());
    assert_eq!(msg.into_nonce(), [0xab; 32]);
}

#[test]
fn session_set_pub_key_binds_the_digest_of_its_text() {
    let msg = SessionSetPubKey::new([1; 32], vec![2, 3]);
    let text = format!(r#"{{"nonce":"{}","pub_key":"0203"}}"#, "01".repeat(32));
    assert_eq!(msg.to_json(), text.clone().into_bytes());
    assert_eq!(msg.user_data().to_vec(), padded(&Sha256::digest(text.as_bytes())));
    assert_eq!(msg.nonce(), &[1; 32]);
    assert_eq!(msg.pub_key(), &[2, 3]);
    assert_eq!(msg.into_tuple(), ([1; 32], vec![2, 3]));
}

#[test]
fn update_and_answer_bind_the_digest_of_their_text() {
    let update = UpdateMsg {
        ciphertext: vec![0xde, 0xad],
        quantity: 3,
        withdrawals: vec![(b"bob".to_vec(), 30), (b"carol".to_vec(), 0)],
    };
    let text = r#"{"ciphertext":"dead","quantity":3,"withdrawals":[["bob","30"],["carol","0"]]}"#;
    assert_eq!(update.to_json(), text.as_bytes().to_vec());
    assert_eq!(update.user_data().to_vec(), padded(&Sha256::digest(text.as_bytes())));
    let none = UpdateMsg { ciphertext: vec![], quantity: 0, withdrawals: vec![] };
    assert_eq!(none.to_json(), br#"{"ciphertext":"","quantity":0,"withdrawals":[]}"#.to_vec());
    let answer = QueryResponseMessage { address: b"alice".to_vec(), encrypted_bal: vec![1] };
    let text = r#"{"address":"alice","encrypted_bal":"01"}"#;
    assert_eq!(answer.to_json(), text.as_bytes().to_vec());
    assert_eq!(answer.user_data().to_vec(), padded(&Sha256::digest(text.as_bytes())));
}

#[test]
fn session_create_round_trip() {
    let msg = SessionCreate::new([9; 32], contract());
    let raw = RawSessionCreate::from_domain(msg);
    assert_eq!(raw.nonce, "09".repeat(32).into_bytes());
    assert_eq!(raw.contract, address(7).into_bytes());
    let back = raw.to_domain().expect("a domain value");
    assert_eq!(back.contract().as_bytes(), address(7).as_bytes());
    assert_eq!(back.into_nonce(), [9; 32]);
}

#[test]
fn session_create_wire_errors() {
    let raw = |nonce: &str, contract: &str| RawSessionCreate {
        nonce: nonce.as_bytes().to_vec(),
        contract: contract.as_bytes().to_vec(),
    };
    assert!(matches!(raw("xy", &address(7)).to_domain(), Err(StdError::InvalidHex)));
    assert!(matches!(
        raw("0102", &address(7)).to_domain(),
        Err(StdError::InvalidDataSize { expected: 32, actual: 2 })
    ));
    assert!(matches!(
        raw(&"00".repeat(32), "nobody").to_domain(),
        Err(StdError::ParseAccountId)
    ));
}

#[test]
fn session_set_pub_key_round_trip_and_errors() {
    let mut enclave = quartz::enclave::EnclaveState::new();
    let key = enclave.generate(false).expect("a key");
    let raw = RawSessionSetPubKey::from_domain(SessionSetPubKey::new([3; 32], key.clone()));
    assert_eq!(raw.pub_key, hex::encode(&key).into_bytes());
    let back = raw.to_domain().expect("a domain value");
    assert_eq!(back.into_tuple(), ([3; 32], key));
    let bad = RawSessionSetPubKey { nonce: "03".repeat(32).into_bytes(), pub_key: b"0400".to_vec() };
    assert!(matches!(bad.to_domain(), Err(StdError::InvalidPubKey)));
    let bad = RawSessionSetPubKey { nonce: b"03".to_vec(), pub_key: b"0400".to_vec() };
    assert!(matches!(bad.to_domain(), Err(StdError::InvalidDataSize { expected: 32, actual: 1 })));
    let bad = RawSessionSetPubKey { nonce: "03".repeat(32).into_bytes(), pub_key: b"04 0".to_vec() };
    assert!(matches!(bad.to_domain(), Err(StdError::InvalidHex)));
}

#[test]
fn mock_attestation_round_trip() {
    let mut data = [0u8; 64];
    data[0] = 1;
    data[63] = 0xfe;
    let raw = RawMockAttestation::from_domain(MockAttestation(data));
    assert_eq!(raw.0.len(), 128);
    assert_eq!(raw.to_domain().expect("a domain value").0, data);
    assert!(matches!(RawMockAttestation(b"zz".to_vec()).to_domain(), Err(StdError::InvalidHex)));
    assert!(matches!(
        RawMockAttestation(b"00".to_vec()).to_domain(),
        Err(StdError::InvalidDataSize { expected: 64, actual: 1 })
    ));
    assert_eq!(MockAttestation::default().0, [0u8; 64]);
}

#[test]
fn dcap_attestation_round_trip() {
    let bytes = quote_bytes([1; 32], [2; 64], 7);
    let quote = Quote::parse(&bytes).expect("a quote");
    let attestation = DcapAttestation::new(quote, vec![9, 9]).expect("an attestation");
    assert_eq!(attestation.mr_enclave(), [1; 32]);
    assert_eq!(attestation.user_data(), [2; 64]);
    let raw = RawDcapAttestation::from_domain(attestation);
    assert_eq!(raw.quote, hex::encode(&bytes).into_bytes());
    assert_eq!(raw.collateral, b"0909".to_vec());
    let back = raw.to_domain().expect("a domain value");
    assert_eq!(back.quote_bytes(), &bytes[..]);
    assert_eq!(back.collateral_bytes(), &[9, 9]);
    let (quote, collateral) = back.into_tuple();
    assert_eq!(quote.as_bytes(), &bytes[..]);
    assert_eq!(collateral, vec![9, 9]);
    let bad = RawDcapAttestation { quote: b"00".to_vec(), collateral: b"".to_vec() };
    assert!(matches!(bad.to_domain(), Err(StdError::ParseQuote)));
    let bad = RawDcapAttestation { quote: b"0".to_vec(), collateral: b"".to_vec() };
    assert!(matches!(bad.to_domain(), Err(StdError::InvalidHex)));
}

#[test]
fn a_collateral_that_is_no_cbor_is_refused() {
    let quote = hex::encode(quote_bytes([1; 32], [2; 64], 0)).into_bytes();
    let read = |collateral: &[u8]| {
        RawDcapAttestation { quote: quote.clone(), collateral: collateral.to_vec() }.to_domain()
    };
    assert!(matches!(read(b""), Err(StdError::ParseCollateral)));
    assert!(matches!(read(b"ff"), Err(StdError::ParseCollateral)));
    assert!(matches!(read(b"18"), Err(StdError::ParseCollateral)));
    assert!(matches!(read(b"6261"), Err(StdError::ParseCollateral)));
    assert!(matches!(read(b"zz"), Err(StdError::InvalidHex)));
    assert!(read(b"a1616101").is_ok());
    assert!(read(b"626162").is_ok());
    assert!(read(b"80").is_ok());
    let quote = Quote::parse(&quote_bytes([1; 32], [2; 64], 0)).expect("a quote");
    assert!(matches!(DcapAttestation::new(quote, vec![0xff]), Err(StdError::ParseCollateral)));
}

#[test]
fn wire_forms_are_read_by_the_names_of_their_messages() {
    let message = SessionCreate::new([5; 32], contract());
    let back = SessionCreate::try_from(RawSessionCreate::from_domain(message)).expect("the message");
    assert!(back.contract().same(&contract()));
    assert_eq!(back.into_nonce(), [5; 32]);
    let upper = RawSessionCreate { nonce: b"05".repeat(32), contract: address(7).to_uppercase().into_bytes() };
    assert!(SessionCreate::try_from(upper).expect("a message").contract().same(&contract()));
    let bad = RawSessionCreate { nonce: b"05".repeat(31), contract: address(7).into_bytes() };
    assert!(matches!(SessionCreate::try_from(bad), Err(StdError::InvalidDataSize { expected: 32, actual: 31 })));
    let bytes = quote_bytes([1; 32], [2; 64], 3);
    let attestation = DcapAttestation::new(Quote::parse(&bytes).expect("a quote"), vec![0xa0]).expect("an attestation");
    let back = DcapAttestation::try_from(RawDcapAttestation::from_domain(attestation)).expect("the attestation");
    assert_eq!(back.quote_bytes(), &bytes[..]);
    assert_eq!(back.collateral_bytes(), &[0xa0]);
    let update = UpdateMsg { ciphertext: vec![1, 2], quantity: 3, withdrawals: vec![(b"a\"b".to_vec(), 4)] };
    let expected = update.user_data();
    let raw = RawAttestedMsgSansHandler::from_domain(AttestedMsgSansHandler(update));
    let back = AttestedMsgSansHandler::try_from(raw).expect("it never fails");
    assert_eq!(back.user_data(), expected);
    assert_eq!(back.0.withdrawals, vec![(b"a\"b".to_vec(), 4)]);
}

#[test]
fn the_hardware_attestor_asks_the_platform() {
    let attestor = DcapAttestor::new(|data: [u8; 64]| Some(quote_bytes([7; 32], data, 0)));
    let msg = SessionCreate::new([5; 32], contract());
    let quote = attestor.quote(&msg).expect("a quote");
    assert_eq!(quote, quote_bytes([7; 32], msg.user_data(), 0));
    assert_eq!(attestor.mr_enclave(), Ok([7; 32]));
    let short = DcapAttestor::new(|_: [u8; 64]| Some(vec![0u8; 10]));
    assert_eq!(short.mr_enclave(), Err(AttestorError));
    let broken = DcapAttestor::new(|_: [u8; 64]| None);
    assert_eq!(broken.quote(&msg), Err(AttestorError));
    assert_eq!(broken.mr_enclave(), Err(AttestorError));
}

#[test]
fn attested_round_trip() {
    let msg = SessionCreate::new([9; 32], contract());
    let attestation = MockAttestor.attestation(&msg);
    let expected = attestation.0;
    let raw: RawAttested<RawSessionCreate, RawMockAttestation> =
        RawAttested::from_domain(Attested::new(msg, attestation));
    let back = raw.to_domain().expect("a domain value");
    assert_eq!(back.msg().contract().as_bytes(), address(7).as_bytes());
    assert_eq!(back.attestation().0, expected);
    assert_eq!(verify_attested(&back, true, &[0; 32]), Ok(()));
    let plain = RawAttestedMsgSansHandler(5u8).to_domain().expect("a domain value");
    assert_eq!(plain.0, 5);
    assert_eq!(RawAttestedMsgSansHandler::from_domain(AttestedMsgSansHandler(6u8)).0, 6);
    let wrapped = AttestedMsgSansHandler(SessionCreate::new([9; 32], contract()));
    assert_eq!(wrapped.user_data(), SessionCreate::new([9; 32], contract()).user_data());
}

#[test]
fn quotes_are_checked_for_their_layout() {
    assert!(Quote::parse(&quote_bytes([1; 32], [2; 64], 0)).is_ok());
    assert!(matches!(Quote::parse(&[]), Err(StdError::ParseQuote)));
    assert!(matches!(Quote::parse(&vec![0u8; 436]), Err(StdError::ParseQuote)));
    let mut wrong_version = quote_bytes([1; 32], [2; 64], 0);
    wrong_version[0] = 4;
    assert!(matches!(Quote::parse(&wrong_version), Err(StdError::ParseQuote)));
    let mut wrong_key = quote_bytes([1; 32], [2; 64], 0);
    wrong_key[2] = 3;
    assert!(matches!(Quote::parse(&wrong_key), Err(StdError::ParseQuote)));
    let mut short = quote_bytes([1; 32], [2; 64], 4);
    short.truncate(438);
    assert!(matches!(Quote::parse(&short), Err(StdError::ParseQuote)));
    let quote = Quote::parse(&quote_bytes([1; 32], [2; 64], 4)).expect("a quote");
    assert_eq!(quote.mr_enclave(), [1; 32]);
    assert_eq!(quote.report_data(), [2; 64]);
    assert_eq!(quote.clone().as_bytes(), quote.as_bytes());
}

#[test]
fn measurement_is_read_at_its_place() {
    let bytes = quote_bytes([0x5a; 32], [0; 64], 0);
    assert_eq!(mr_enclave_of_quote(&bytes), Some([0x5a; 32]));
    assert_eq!(mr_enclave_of_quote(&bytes[..144]), Some([0x5a; 32]));
    assert_eq!(mr_enclave_of_quote(&bytes[..143]), None);
    assert_eq!(EpidAttestor.mr_enclave_from(&bytes), Ok([0x5a; 32]));
    assert_eq!(EpidAttestor.mr_enclave_from(&[]), Err(AttestorError));
    assert_eq!(EpidAttestor.null_user_data().user_data(), [0u8; 64]);
    assert_eq!(NullUserData.user_data(), [0u8; 64]);
}

#[test]
fn mock_attestor_attests_the_report_data() {
    let msg = SessionCreate::new([9; 32], contract());
    assert_eq!(MockAttestor.quote(&msg), Ok(msg.user_data().to_vec()));
    assert_eq!(MockAttestor.mr_enclave(), Ok([0u8; 32]));
    let attestation = MockAttestor.attestation(&msg);
    assert_eq!(attestation.user_data(), msg.user_data());
    assert_eq!(attestation.mr_enclave(), [0u8; 32]);
    assert_eq!(
        verify_attestation(&attestation, true, &msg.user_data(), &MockAttestor.mr_enclave().unwrap()),
        Ok(())
    );
}

#[test]
fn attestations_are_judged_in_one_place() {
    let msg = SessionCreate::new([9; 32], contract());
    let good = Quote::parse(&quote_bytes([1; 32], msg.user_data(), 0)).expect("a quote");
    let attested = Attested::new(msg, DcapAttestation::new(good, vec![0x80]).expect("an attestation"));
    assert_eq!(verify_attested(&attested, true, &[1; 32]), Ok(()));
    assert_eq!(verify_attested(&attested, false, &[1; 32]), Err(AttestationRejected::Collateral));
    assert_eq!(verify_attested(&attested, true, &[0; 32]), Err(AttestationRejected::MrEnclave));
    let (msg, _) = attested.into_tuple();
    let other = Quote::parse(&quote_bytes([1; 32], [7; 64], 0)).expect("a quote");
    let attested = Attested::new(msg, DcapAttestation::new(other, vec![0x80]).expect("an attestation"));
    assert_eq!(verify_attested(&attested, true, &[1; 32]), Err(AttestationRejected::UserData));
    assert_eq!(verify_attested(&attested, false, &[0; 32]), Err(AttestationRejected::Collateral));
}

#[test]
fn fixed_size_values() {
    assert_eq!(to_array_32(&[1u8; 32]), Ok([1u8; 32]));
    assert_eq!(to_array_32(&[1u8; 31]), Err(StdError::InvalidDataSize { expected: 32, actual: 31 }));
    assert_eq!(to_array_64(&[1u8; 64]), Ok([1u8; 64]));
    assert_eq!(to_array_64(&[]), Err(StdError::InvalidDataSize { expected: 64, actual: 0 }));
    assert!(same_32(&[1; 32], &[1; 32]));
    assert!(!same_32(&[1; 32], &[2; 32]));
    assert!(same_64(&[1; 64], &[1; 64]));
    assert!(!same_64(&zeros_64(), &[2; 64]));
    assert_eq!(vec_of_32(&zeros_32()), vec![0u8; 32]);
    assert_eq!(vec_of_64(&[3; 64]), vec![3u8; 64]);
}

fn options() -> Options {
    Options {
        trust_threshold: TrustThreshold { numerator: 2, denominator: 3 },
        trusting_period: 1_209_600,
        clock_drift: 5,
        max_block_lag: 6,
    }
}

fn config(chain_id: &[u8]) -> Config {
    Config {
        mr_enclave: [0; 32],
        light_client_opts: LightClientOpts {
            chain_id: chain_id.to_vec(),
            trusted_height: 17,
            trusted_hash: [0xcd; 32],
            options: options(),
        },
        proof_spec: ProofSpec::Iavl,
    }
}

#[test]
fn the_configuration_is_attested_for_the_contract() {
    let attested = instantiate(&config(b"testing"), &MockAttestor).expect("an attested configuration");
    let text = format!(
        r#"{{"config":{{"mr_enclave":"{}","light_client_opts":{{"chain_id":"testing","trusted_height":17,"trusted_hash":"{}","trust_threshold":[2,3],"trusting_period":1209600,"max_clock_drift":5,"max_block_lag":6}}}}}}"#,
        "00".repeat(32),
        "cd".repeat(32)
    );
    assert_eq!(attested.msg.to_json(), text.clone().into_bytes());
    assert_eq!(attested.msg.mr_enclave(), [0u8; 32]);
    assert_eq!(attested.attestation, padded(&Sha256::digest(text.as_bytes())));
    let (msg, quote) = attested.into_tuple();
    let on_chain = Attested::new(msg, MockAttestation(to_array_64(&quote).expect("64 bytes")));
    let state = instantiate_contract(contract(), &on_chain, true).expect("a contract");
    assert_eq!(state.get_nonce(), None);
    assert_eq!(state.get_public_key(), None);
    assert!(matches!(
        instantiate_contract(contract(), &on_chain, false),
        Err(ContractError::AttestationRejected(AttestationRejected::Collateral))
    ));
    let other = CoreInstantiate::new([1; 32], b"testing".to_vec(), 17, [0xcd; 32], options());
    let forged = Attested::new(other, MockAttestation(quartz::state::zeros_64()));
    assert!(matches!(
        instantiate_contract(contract(), &forged, true),
        Err(ContractError::AttestationRejected(AttestationRejected::UserData))
    ));
    let other = CoreInstantiate::new([1; 32], b"testing".to_vec(), 17, [0xcd; 32], options());
    let attestation = MockAttestor.attestation(&other);
    assert!(matches!(
        instantiate_contract(contract(), &Attested::new(other, attestation), true),
        Err(ContractError::AttestationRejected(AttestationRejected::MrEnclave))
    ));
    assert!(matches!(
        instantiate(&config(b"test\"ing"), &MockAttestor),
        Err(Error::Protocol(ProtocolError::MalformedAddress))
    ));
}

#[test]
fn update_and_answer_round_trip() {
    let update = UpdateMsg { ciphertext: vec![0, 255], quantity: 2, withdrawals: vec![(b"bob".to_vec(), 30)] };
    let raw = RawUpdateMsg::from_domain(update);
    assert_eq!(raw.ciphertext, b"00ff".to_vec());
    let back = raw.to_domain().expect("a domain value");
    assert_eq!(back.ciphertext, vec![0, 255]);
    assert_eq!(back.quantity, 2);
    assert_eq!(back.withdrawals, vec![(b"bob".to_vec(), 30u128)]);
    let bad = RawUpdateMsg { ciphertext: b"0".to_vec(), quantity: 0, withdrawals: vec![] };
    assert!(matches!(bad.to_domain(), Err(StdError::InvalidHex)));
    let answer = QueryResponseMessage { address: b"alice".to_vec(), encrypted_bal: vec![7] };
    let raw = RawQueryResponseMsg::from_domain(answer);
    assert_eq!(raw.encrypted_bal, b"07".to_vec());
    let back = raw.to_domain().expect("a domain value");
    assert_eq!(back.address, b"alice".to_vec());
    assert_eq!(back.encrypted_bal, vec![7]);
    let bad = RawQueryResponseMsg { address: vec![], encrypted_bal: b"0g".to_vec() };
    assert!(matches!(bad.to_domain(), Err(StdError::InvalidHex)));
    let status = StatusResponseMessage { address: b"alice".to_vec(), encrypted_bal: vec![1] };
    assert_eq!(status.address, b"alice".to_vec());
}

#[test]
fn attestations_of_either_kind_are_judged_alike() {
    let msg = || SessionCreate::new([9; 32], contract());
    let mock = AnyAttestation::Mock(MockAttestor.attestation(&msg()));
    assert!(!mock.needs_evidence());
    assert_eq!(mock.mr_enclave(), [0u8; 32]);
    assert_eq!(mock.user_data(), msg().user_data());
    let attested = Attested::new(msg(), mock);
    assert_eq!(verify_any(&attested, false, &[0; 32]), Ok(()));
    assert_eq!(verify_any(&attested, true, &[1; 32]), Err(AttestationRejected::MrEnclave));
    let quote = Quote::parse(&quote_bytes([1; 32], msg().user_data(), 0)).expect("a quote");
    let dcap = AnyAttestation::Dcap(DcapAttestation::new(quote, vec![1]).expect("an attestation"));
    assert!(dcap.needs_evidence());
    assert_eq!(dcap.mr_enclave(), [1u8; 32]);
    let attested = Attested::new(msg(), dcap);
    assert_eq!(verify_any(&attested, true, &[1; 32]), Ok(()));
    assert_eq!(verify_any(&attested, false, &[1; 32]), Err(AttestationRejected::Collateral));
    let (_, attestation) = attested.into_tuple();
    let raw = RawAnyAttestation::from_domain(attestation);
    assert!(matches!(raw, RawAnyAttestation::Dcap(_)));
    let back = raw.to_domain().expect("a domain value");
    assert_eq!(back.mr_enclave(), [1u8; 32]);
    let raw = RawAnyAttestation::from_domain(AnyAttestation::Mock(MockAttestation([7; 64])));
    match raw.to_domain() {
        Ok(AnyAttestation::Mock(m)) => assert_eq!(m.0, [7u8; 64]),
        _ => panic!("a mock attestation was expected"),
    }
    assert!(matches!(
        RawAnyAttestation::Mock(RawMockAttestation(b"zz".to_vec())).to_domain(),
        Err(StdError::InvalidHex)
    ));
}
