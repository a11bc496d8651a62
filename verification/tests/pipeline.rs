use quartz::account::AccountId;
use quartz::attested::{
    verify_attested, Attested, AttestationRejected, HasUserData, MockAttestation,
};
use quartz::attestor::MockAttestor;
use quartz::codec::{encode_transfer, parse_state};
use quartz::contract::{ContractError, ContractState, QuartzExecuteMsg};
use quartz::enclave::{encrypt_to, pending_session_to_json, EnclaveState, Phase};
use quartz::error::{Error, LightClientError, ProtocolError, Status};
use quartz::light_client::{
    BlockIdFlag, Commit, CommitSig, Header, Invalid, LightBlock, Options, TrustThreshold,
    Validator,
    ValidatorSet,
};
use quartz::membership::{CommitmentProof, ExistenceProof, LeafOp, ProofError, ProofSpec};
use quartz::messages::{
    requests_to_json, ClearTextTransferRequestMsg, QueryRequestMessage, Request,
    UpdateRequestMessage,
};
use quartz::processor::{classify_state, Config, StateSource, TransfersService};
use quartz::proof_of_publication::{storage_key_of, LightClientOpts, ProofOfPublication};
use quartz::session::{SessionCreate, SessionSetPubKey};
use quartz::state::to_array_64;
use sha2::{Digest, Sha256};

const NOW: u64 = 1_700_000_100;

fn signing_key(i: u8) -> ed25519_consensus::SigningKey {
    ed25519_consensus::SigningKey::from([i; 32])
}

fn pub_key(i: u8) -> Vec<u8> {
    signing_key(i).verification_key().to_bytes().to_vec()
}

fn address_of(i: u8) -> Vec<u8> {
    Sha256::digest(pub_key(i))[..20].to_vec()
}

fn validator(i: u8, power: u64) -> Validator {
    Validator { address: address_of(i), pub_key: pub_key(i), power }
}

fn hash_of(set: &ValidatorSet) -> [u8; 32] {
    let infos = set
        .validators
        .iter()
        .map(|v| {
            let key = tendermint::PublicKey::from_raw_ed25519(&v.pub_key).expect("a key");
            tendermint::validator::Info::new(key, tendermint::vote::Power::try_from(v.power).expect("a power"))
        })
        .collect();
    let hash = tendermint::validator::Set::without_proposer(infos).hash();
    hash.as_bytes().try_into().expect("32 bytes")
}

fn vote(i: u8, height: u64) -> CommitSig {
    let sign_bytes = format!("a vote for block {height}").into_bytes();
    let signature = signing_key(i).sign(&sign_bytes).to_bytes().to_vec();
    CommitSig { flag: BlockIdFlag::Commit, validator_address: address_of(i), sign_bytes, signature }
}

fn contract() -> AccountId {
    let text = subtle_encoding::bech32::encode("cosmos", [7u8; 20]);
    AccountId::parse(text.as_bytes()).expect("an account id")
}

fn validators() -> ValidatorSet {
    ValidatorSet { validators: (1u8..=4).map(|i| validator(i, 10)).collect() }
}

fn block(height: u64, app_hash: Vec<u8>, signers: &[u8]) -> LightBlock {
    let signatures = signers
        .iter()
        .map(|i| vote(*i, height))
        .collect();
    LightBlock {
        header: Header {
            chain_id: b"testing".to_vec(),
            height,
            time: 1_700_000_000 + height,
            app_hash,
            validators_hash: hash_of(&validators()),
            next_validators_hash: hash_of(&validators()),
            hash: [height as u8; 32],
        },
        commit: Commit { height, block_id_hash: [height as u8; 32], signatures },
        validators: validators(),
        next_validators: validators(),
    }
}

fn opts() -> LightClientOpts {
    LightClientOpts {
        chain_id: b"testing".to_vec(),
        trusted_height: 1,
        trusted_hash: [1; 32],
        options: Options {
            trust_threshold: TrustThreshold { numerator: 2, denominator: 3 },
            trusting_period: 1_209_600,
            clock_drift: 5,
            max_block_lag: 5,
        },
    }
}

fn leaf_proof(key: &[u8], value: &[u8]) -> (CommitmentProof, Vec<u8>) {
    let mut image = vec![0u8, key.len() as u8];
    image.extend_from_slice(key);
    image.push(32);
    image.extend_from_slice(&Sha256::digest(value));
    let root = Sha256::digest(&image).to_vec();
    let proof = ExistenceProof {
        key: key.to_vec(),
        value: value.to_vec(),
        leaf: Some(LeafOp { hash: 1, prehash_key: 0, prehash_value: 1, length: 1, prefix: vec![0] }),
        path: vec![],
    };
    (CommitmentProof::Exist(proof), root)
}

fn published<M>(key: &[u8], value: &[u8], msg: M) -> ProofOfPublication<M> {
    let (merkle_proof, root) = leaf_proof(key, value);
    ProofOfPublication {
        light_client_proof: vec![block(1, vec![1], &[1, 2, 3]), block(2, root, &[1, 2, 3])],
        merkle_proof,
        storage_key: key.to_vec(),
        value: value.to_vec(),
        msg,
    }
}

fn shaken_enclave() -> (EnclaveState, Vec<u8>) {
    let mut enclave = EnclaveState::new();
    let nonce = [5u8; 32];
    enclave.session_create(nonce, contract(), &MockAttestor).expect("a session");
    let key = storage_key_of(&contract(), b"quartz_session");
    let pop = published(&key, &pending_session_to_json(&nonce), nonce);
    let attested = enclave
        .session_set_pub_key(&pop, &opts(), ProofSpec::Tendermint, NOW, &MockAttestor)
        .expect("a published key");
    let pub_key = attested.msg.pub_key().to_vec();
    (enclave, pub_key)
}

fn service() -> (TransfersService<MockAttestor>, Vec<u8>) {
    let (enclave, pub_key) = shaken_enclave();
    let config =
        Config { mr_enclave: [0; 32], light_client_opts: opts(), proof_spec: ProofSpec::Tendermint };
    (TransfersService::new(config, enclave, MockAttestor), pub_key)
}

fn update(state: Vec<u8>, requests: Vec<Request>, seq_num: u64) -> ProofOfPublication<UpdateRequestMessage> {
    let key = storage_key_of(&contract(), b"requests");
    let value = requests_to_json(&requests);
    published(&key, &value, UpdateRequestMessage { state, requests, seq_num })
}

fn mock_attestation(quote: &[u8]) -> MockAttestation {
    MockAttestation(to_array_64(quote).expect("64 bytes"))
}

#[test]
fn happy_handshake() {
    let mut enclave = EnclaveState::new();
    assert_eq!(enclave.phase(), Phase::Uninitialised);
    let mut ledger = ContractState::new(contract(), [0; 32]);
    let nonce = [5u8; 32];

    let created = enclave.session_create(nonce, contract(), &MockAttestor).expect("a session");
    assert_eq!(enclave.phase(), Phase::NonceIssued);
    let (msg, quote) = created.into_tuple();
    let attested = Attested::new(msg, mock_attestation(&quote));
    assert_eq!(ledger.handle_session_create(attested, true), Ok(()));
    assert_eq!(ledger.get_nonce(), Some(nonce));
    assert_eq!(ledger.get_public_key(), None);

    let key = storage_key_of(&contract(), b"quartz_session");
    let pop = published(&key, &pending_session_to_json(&nonce), nonce);
    let set = enclave
        .session_set_pub_key(&pop, &opts(), ProofSpec::Tendermint, NOW, &MockAttestor)
        .expect("a published key");
    assert_eq!(enclave.phase(), Phase::KeyPublished);
    let (msg, quote) = set.into_tuple();
    let pub_key = msg.pub_key().to_vec();
    assert_eq!(pub_key.len(), 33);
    assert!(pub_key[0] == 2 || pub_key[0] == 3);
    assert_eq!(enclave.public_key(), Some(pub_key.clone()));
    let attested = Attested::new(msg, mock_attestation(&quote));
    assert_eq!(ledger.handle_session_set_pub_key(attested, true), Ok(()));
    assert_eq!(ledger.get_public_key(), Some(pub_key));
    assert_eq!(ledger.epoch_counter(), 1);
}

#[test]
fn handshake_with_another_nonce_is_rejected() {
    let mut ledger = ContractState::new(contract(), [0; 32]);
    let created = SessionCreate::new([5; 32], contract());
    let attestation = MockAttestor.attestation(&created);
    assert_eq!(ledger.handle_session_create(Attested::new(created, attestation), true), Ok(()));
    let (_, pub_key) = shaken_enclave();
    let set = SessionSetPubKey::new([6; 32], pub_key);
    let attestation = MockAttestor.attestation(&set);
    assert_eq!(
        ledger.handle_session_set_pub_key(Attested::new(set, attestation), true),
        Err(ContractError::NonceMismatch)
    );
    assert_eq!(ledger.get_public_key(), None);
}

#[test]
fn contract_refuses_what_is_not_for_it() {
    let other = AccountId::parse(subtle_encoding::bech32::encode("cosmos", [8u8; 20]).as_bytes())
        .expect("an account id");
    let mut ledger = ContractState::new(other, [0; 32]);
    let created = SessionCreate::new([5; 32], contract());
    let attestation = MockAttestor.attestation(&created);
    assert_eq!(
        ledger.handle_session_create(Attested::new(created, attestation), true),
        Err(ContractError::ContractMismatch)
    );
    let mut ledger = ContractState::new(contract(), [0; 32]);
    let (_, pub_key) = shaken_enclave();
    let set = SessionSetPubKey::new([5; 32], pub_key);
    let attestation = MockAttestor.attestation(&set);
    assert_eq!(
        ledger.handle_session_set_pub_key(Attested::new(set, attestation), true),
        Err(ContractError::NoSession)
    );
}

#[test]
fn contract_refuses_a_second_key_and_a_key_off_the_curve() {
    let mut ledger = ContractState::new(contract(), [0; 32]);
    let created = SessionCreate::new([5; 32], contract());
    let attestation = MockAttestor.attestation(&created);
    assert_eq!(ledger.handle_session_create(Attested::new(created, attestation), true), Ok(()));
    let bad = SessionSetPubKey::new([5; 32], vec![4; 33]);
    let attestation = MockAttestor.attestation(&bad);
    assert_eq!(
        ledger.handle_session_set_pub_key(Attested::new(bad, attestation), true),
        Err(ContractError::InvalidPubKey)
    );
    let (_, pub_key) = shaken_enclave();
    let set = SessionSetPubKey::new([5; 32], pub_key.clone());
    let attestation = MockAttestor.attestation(&set);
    assert_eq!(ledger.handle_session_set_pub_key(Attested::new(set, attestation), true), Ok(()));
    let again = SessionSetPubKey::new([5; 32], pub_key);
    let attestation = MockAttestor.attestation(&again);
    assert_eq!(
        ledger.handle_session_set_pub_key(Attested::new(again, attestation), true),
        Err(ContractError::KeyAlreadyPublished)
    );
}

#[test]
fn key_is_published_only_for_the_proved_nonce() {
    let mut enclave = EnclaveState::new();
    let key = storage_key_of(&contract(), b"quartz_session");
    let pop = published(&key, &pending_session_to_json(&[5; 32]), [5u8; 32]);
    let early = enclave.session_set_pub_key(&pop, &opts(), ProofSpec::Tendermint, NOW, &MockAttestor);
    assert!(matches!(early, Err(Error::KeyUnavailable)));

    enclave.session_create([6; 32], contract(), &MockAttestor).expect("a session");
    let stale = enclave.session_set_pub_key(&pop, &opts(), ProofSpec::Tendermint, NOW, &MockAttestor);
    assert!(matches!(stale, Err(Error::StaleProof)));
    assert_eq!(enclave.phase(), Phase::NonceIssued);

    let wrong_key = published(b"elsewhere", &pending_session_to_json(&[6; 32]), [6u8; 32]);
    let r = enclave.session_set_pub_key(&wrong_key, &opts(), ProofSpec::Tendermint, NOW, &MockAttestor);
    assert!(matches!(r, Err(Error::StorageKey)));
    assert_eq!(Error::StaleProof.status(), Status::FailedPrecondition);
}

#[test]
fn key_is_not_published_before_the_header_is_trusted() {
    let mut enclave = EnclaveState::new();
    enclave.session_create([5; 32], contract(), &MockAttestor).expect("a session");
    let key = storage_key_of(&contract(), b"quartz_session");
    let mut pop = published(&key, &pending_session_to_json(&[5; 32]), [5u8; 32]);
    pop.light_client_proof[1].commit.signatures.truncate(2);
    let r = enclave.session_set_pub_key(&pop, &opts(), ProofSpec::Tendermint, NOW, &MockAttestor);
    assert!(matches!(
        r,
        Err(Error::LightClient(LightClientError::Invalid(Invalid::InsufficientSigners)))
    ));
    assert_eq!(enclave.phase(), Phase::NonceIssued);
    assert_eq!(enclave.public_key(), None);
}

#[test]
fn generate_is_refused_once_a_key_is_held() {
    let mut enclave = EnclaveState::new();
    let first = enclave.generate(false).expect("a key");
    assert_eq!(enclave.public_key(), Some(first.clone()));
    assert!(matches!(enclave.generate(false), Err(Error::KeyUnavailable)));
    assert_eq!(enclave.public_key(), Some(first.clone()));
    let second = enclave.generate(true).expect("a new key");
    assert_ne!(first, second);
    assert_eq!(enclave.public_key(), Some(second));
}

#[test]
fn decryption_undoes_encryption() {
    let (enclave, pub_key) = shaken_enclave();
    for text in [b"".to_vec(), b"hello".to_vec(), vec![7u8; 5000]] {
        let ciphertext = encrypt_to(&pub_key, &text).expect("a ciphertext");
        assert_ne!(ciphertext, text);
        assert_eq!(enclave.decrypt_with_sk(&ciphertext), Ok(text));
    }
    assert_eq!(enclave.decrypt_with_sk(b"no ciphertext"), Err(Error::Decrypt));
    assert_eq!(EnclaveState::new().decrypt_with_sk(b"anything"), Err(Error::KeyUnavailable));
    assert_eq!(encrypt_to(&[0u8; 33], b"hello"), Err(Error::Encrypt));
}

#[test]
fn transfer_path() {
    let (mut service, pub_key) = service();
    let transfer = ClearTextTransferRequestMsg {
        sender: b"alice".to_vec(),
        receiver: b"bob".to_vec(),
        amount: 30,
    };
    let ciphertext = encrypt_to(&pub_key, &encode_transfer(&transfer)).expect("a ciphertext");
    let requests = vec![
        Request::Deposit(b"alice".to_vec(), 100),
        Request::Transfer(ciphertext),
        Request::Withdraw(b"bob".to_vec()),
    ];
    let attested = service.run(&update(vec![0], requests, 1), NOW).expect("an update");
    assert_eq!(attested.msg.quantity, 3);
    assert_eq!(attested.msg.withdrawals, vec![(b"bob".to_vec(), 30u128)]);
    assert_eq!(service.enclave.sequence_number(), 1);
    let plaintext = service.enclave.decrypt_with_sk(&attested.msg.ciphertext).expect("the state");
    assert_eq!(plaintext, br#"{"state":{"alice":"70"}}"#.to_vec());
    let state = parse_state(&plaintext).expect("the text of a state");
    assert_eq!(state.len(), 1);
    assert_eq!(state.get(b"alice"), Some(70));
    assert_eq!(attested.attestation, attested.msg.user_data().to_vec());
    let on_chain = Attested::new(attested.msg, mock_attestation(&attested.attestation));
    assert_eq!(verify_attested(&on_chain, true, &[0; 32]), Ok(()));

    let next = vec![Request::Deposit(b"bob".to_vec(), 5)];
    let ciphertext = on_chain.msg.ciphertext.clone();
    let second = service.run(&update(ciphertext, next, 1), NOW).expect("a second update");
    let plaintext = service.enclave.decrypt_with_sk(&second.msg.ciphertext).expect("the state");
    assert_eq!(plaintext, br#"{"state":{"alice":"70","bob":"5"}}"#.to_vec());
}

#[test]
fn replay_rejection() {
    let (mut service, pub_key) = service();
    service.enclave.set_sequence_number(4);
    let transfer = ClearTextTransferRequestMsg {
        sender: b"alice".to_vec(),
        receiver: b"bob".to_vec(),
        amount: 1,
    };
    let ciphertext = encrypt_to(&pub_key, &encode_transfer(&transfer)).expect("a ciphertext");
    let requests = || vec![Request::Transfer(ciphertext.clone())];
    assert!(service.run(&update(vec![0], requests(), 5), NOW).is_ok());
    assert_eq!(service.enclave.sequence_number(), 5);
    let again = service.run(&update(vec![0], requests(), 5), NOW);
    assert!(matches!(again, Err(Error::ReplayAttempted)));
    assert_eq!(service.enclave.sequence_number(), 5);
    assert_eq!(Error::ReplayAttempted.status(), Status::FailedPrecondition);
    let beyond = service.run(&update(vec![0], requests(), 7), NOW);
    assert!(matches!(beyond, Err(Error::SeqMismatch)));
}

#[test]
fn invalid_merkle_proof() {
    let (mut service, _) = service();
    let requests = vec![Request::Deposit(b"alice".to_vec(), 100)];
    let key = storage_key_of(&contract(), b"requests");
    let other = requests_to_json(&vec![Request::Deposit(b"alice".to_vec(), 1)]);
    let pop = published(&key, &other, UpdateRequestMessage { state: vec![0], requests, seq_num: 0 });
    let r = service.run(&pop, NOW);
    assert!(matches!(r, Err(Error::ProofVerification)));
    assert_eq!(Error::ProofVerification.status(), Status::FailedPrecondition);

    let requests = vec![Request::Deposit(b"alice".to_vec(), 100)];
    let mut pop = update(vec![0], requests, 0);
    pop.value = b"[]".to_vec();
    let r = service.run(&pop, NOW);
    assert!(matches!(r, Err(Error::MerkleProof(ProofError::VerificationFailure))));
    assert_eq!(service.enclave.sequence_number(), 0);
}

#[test]
fn sentinel_state_and_other_single_bytes() {
    assert_eq!(classify_state(&[0]), Ok(StateSource::Sentinel));
    assert_eq!(classify_state(&[1]), Err(Error::Decrypt));
    assert_eq!(classify_state(&[255]), Err(Error::Decrypt));
    assert_eq!(classify_state(&[]), Ok(StateSource::Encrypted));
    assert_eq!(classify_state(&[0, 0]), Ok(StateSource::Encrypted));
    let (mut service, _) = service();
    let r = service.run(&update(vec![1], vec![], 0), NOW);
    assert!(matches!(r, Err(Error::Decrypt)));
    assert_eq!(Error::Decrypt.status(), Status::InvalidArgument);
    let ok = service.run(&update(vec![0], vec![], 0), NOW).expect("an empty round");
    assert_eq!(ok.msg.quantity, 0);
    assert!(ok.msg.withdrawals.is_empty());
    let plaintext = service.enclave.decrypt_with_sk(&ok.msg.ciphertext).expect("the state");
    assert_eq!(plaintext, br#"{"state":{}}"#.to_vec());
}

#[test]
fn malformed_requests_and_states_are_refused() {
    let (mut service, pub_key) = service();
    let r = service.run(&update(vec![0], vec![Request::Withdraw(b"a\"b".to_vec())], 0), NOW);
    assert!(matches!(r, Err(Error::Protocol(ProtocolError::MalformedAddress))));
    assert_eq!(Error::Protocol(ProtocolError::MalformedAddress).status(), Status::InvalidArgument);
    let garbage = encrypt_to(&pub_key, b"no state").expect("a ciphertext");
    let r = service.run(&update(garbage, vec![], 0), NOW);
    assert!(matches!(r, Err(Error::Protocol(ProtocolError::MalformedState))));
    let garbage = encrypt_to(&pub_key, b"no transfer").expect("a ciphertext");
    let r = service.run(&update(vec![0], vec![Request::Transfer(garbage)], 1), NOW);
    assert!(matches!(r, Err(Error::Protocol(ProtocolError::MalformedTransfer))));
    let r = service.run(&update(vec![0], vec![Request::Transfer(b"junk".to_vec())], 2), NOW);
    assert!(matches!(r, Err(Error::Decrypt)));
}

#[test]
fn run_before_the_handshake_is_refused() {
    let config =
        Config { mr_enclave: [0; 32], light_client_opts: opts(), proof_spec: ProofSpec::Tendermint };
    let mut service = TransfersService::new(config, EnclaveState::new(), MockAttestor);
    let r = service.run(&update(vec![0], vec![], 0), NOW);
    assert!(matches!(r, Err(Error::KeyUnavailable)));
    assert_eq!(Error::KeyUnavailable.status(), Status::Internal);
}

#[test]
fn query_answers_with_the_encrypted_balance() {
    let (mut service, _) = service();
    let requests = vec![Request::Deposit(b"alice".to_vec(), 100)];
    let updated = service.run(&update(vec![0], requests, 0), NOW).expect("an update");
    let mut asker = EnclaveState::new();
    let ephemeral = asker.generate(false).expect("a key");
    let question = QueryRequestMessage {
        state: updated.msg.ciphertext.clone(),
        address: b"alice".to_vec(),
        ephemeral_pubkey: ephemeral.clone(),
    };
    let answer = service.query(&question).expect("an answer");
    assert_eq!(answer.msg.address, b"alice".to_vec());
    assert_eq!(asker.decrypt_with_sk(&answer.msg.encrypted_bal), Ok(br#"{"balance":"100"}"#.to_vec()));
    assert_eq!(answer.attestation, answer.msg.user_data().to_vec());
    assert_eq!(service.enclave.sequence_number(), 0);

    let absent = QueryRequestMessage {
        state: updated.msg.ciphertext.clone(),
        address: b"bob".to_vec(),
        ephemeral_pubkey: ephemeral.clone(),
    };
    let answer = service.query(&absent).expect("an answer");
    assert_eq!(asker.decrypt_with_sk(&answer.msg.encrypted_bal), Ok(br#"{"balance":"0"}"#.to_vec()));

    let first_round = QueryRequestMessage {
        state: vec![0],
        address: b"alice".to_vec(),
        ephemeral_pubkey: ephemeral,
    };
    let answer = service.query(&first_round).expect("an answer");
    assert_eq!(asker.decrypt_with_sk(&answer.msg.encrypted_bal), Ok(br#"{"balance":"0"}"#.to_vec()));

    let bad_key = QueryRequestMessage {
        state: vec![0],
        address: b"alice".to_vec(),
        ephemeral_pubkey: vec![1, 2, 3],
    };
    assert!(matches!(
        service.query(&bad_key),
        Err(Error::Protocol(ProtocolError::InvalidPublicKey))
    ));
    let bad_state = QueryRequestMessage {
        state: vec![9],
        address: b"alice".to_vec(),
        ephemeral_pubkey: vec![1, 2, 3],
    };
    assert!(matches!(service.query(&bad_state), Err(Error::Decrypt)));
}

#[test]
fn mr_enclave_mismatch() {
    let created = SessionCreate::new([5; 32], contract());
    let attestation = MockAttestor.attestation(&created);
    let attested = Attested::new(created, attestation);
    assert_eq!(verify_attested(&attested, true, &[0; 32]), Ok(()));
    assert_eq!(
        verify_attested(&attested, true, &[1; 32]),
        Err(AttestationRejected::MrEnclave)
    );
    let mut ledger = ContractState::new(contract(), [1; 32]);
    assert_eq!(
        ledger.handle_session_create(attested, true),
        Err(ContractError::AttestationRejected(AttestationRejected::MrEnclave))
    );
    assert_eq!(ledger.get_nonce(), None);
}

#[test]
fn handshake_messages_are_dispatched() {
    let mut ledger = ContractState::new(contract(), [0; 32]);
    let created = SessionCreate::new([5; 32], contract());
    let attestation = MockAttestor.attestation(&created);
    let msg = QuartzExecuteMsg::SessionCreate(Attested::new(created, attestation));
    assert_eq!(ledger.handle_quartz(msg, true), Ok(()));
    assert_eq!(ledger.get_nonce(), Some([5; 32]));
    let (_, pub_key) = shaken_enclave();
    let set = SessionSetPubKey::new([5; 32], pub_key.clone());
    let attestation = MockAttestor.attestation(&set);
    let msg = QuartzExecuteMsg::SessionSetPubKey(Attested::new(set, attestation));
    assert_eq!(ledger.handle_quartz(msg, false), Err(ContractError::AttestationRejected(AttestationRejected::Collateral)));
    assert_eq!(ledger.get_public_key(), None);
    let set = SessionSetPubKey::new([5; 32], pub_key.clone());
    let attestation = MockAttestor.attestation(&set);
    let msg = QuartzExecuteMsg::SessionSetPubKey(Attested::new(set, attestation));
    assert_eq!(ledger.handle_quartz(msg, true), Ok(()));
    assert_eq!(ledger.get_public_key(), Some(pub_key));
}

#[test]
fn a_ciphertext_is_longer_than_its_plaintext_by_the_framing() {
    let mut enclave = EnclaveState::new();
    let key = enclave.generate(false).expect("a first key is always made");
    for plaintext in [&b""[..], &b"hello"[..], &[7u8; 1000][..]] {
        let sealed = encrypt_to(&key, plaintext).expect("a ciphertext");
        assert!(sealed.len() == plaintext.len() + 65 || sealed.len() == plaintext.len() + 97);
        let opened = enclave.decrypt_with_sk(&sealed).expect("the plaintext");
        assert_eq!(opened, plaintext.to_vec());
    }
    assert!(matches!(enclave.decrypt_with_sk(&[0u8; 64]), Err(Error::Decrypt)));
    assert!(matches!(encrypt_to(&[4u8; 33], b"x"), Err(Error::Encrypt)));
    for _ in 0..8 {
        assert!(EnclaveState::new().generate(false).is_ok());
        assert!(enclave.generate(true).is_ok());
    }
}
