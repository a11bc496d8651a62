use quartz::cli::{
    check_has_extension, contract_addr_of, contract_has_changed, default_admin,
    default_chain_id, default_mocksgx_flag, default_node_url, default_port, default_rpc_addr,
    event_attribute, find_pub_key, gen_hash, get_lock_file_path, is_false, log_value,
    parse_trust_threshold, Attribute, ContractBuildArgs, DeployedContract, EnclaveBuildArgs,
    Event, InitArgs, InitError, InitRequest, LevelFilter, Log, Response, Verbosity,
};
use quartz::dispatcher::{
    extract_event_info, wait_step, ChainEvent, Consumer, Dispatcher, EventError, Step,
    StreamItem, TransfersOpEvent, TransfersOpEventTypes, WaitOutcome,
};
use quartz::drivers::{
    backoff, block_tx_commit, check_enclave_start, handshake, operation_step, query_handler,
    says_tx_not_found, transfer_handler, ChainArgs, HandshakeAction, HandshakeEvent,
    HandshakeState, OperationAction, OperationEvent, OperationKind, OperationState, Poll,
    ProverConfig, RetryPolicy, StartError, StartSettings, Submission, TxQuery,
};
use quartz::epoch::{
    current_epoch_key, epoch_key, previous_epoch_key, ClearingError, Epochs,
    State,
};
use quartz::light_client::TrustThreshold;

fn address(fill: u8) -> String {
    subtle_encoding::bech32::encode("cosmos", [fill; 20])
}

fn attributes(pairs: &[(&str, &[&str])]) -> Vec<(Vec<u8>, Vec<Vec<u8>>)> {
    pairs
        .iter()
        .map(|(k, vs)| (k.as_bytes().to_vec(), vs.iter().map(|v| v.as_bytes().to_vec()).collect()))
        .collect()
}

#[test]
fn verbosity_gives_the_log_level() {
    assert_eq!(Verbosity { verbose: 0 }.to_level_filter(), LevelFilter::Info);
    assert_eq!(Verbosity { verbose: 1 }.to_level_filter(), LevelFilter::Debug);
    assert_eq!(Verbosity { verbose: 2 }.to_level_filter(), LevelFilter::Trace);
    assert_eq!(Verbosity { verbose: 255 }.to_level_filter(), LevelFilter::Trace);
}

#[test]
fn defaults() {
    assert!(is_false(&false));
    assert!(!is_false(&true));
    assert_eq!(default_admin(), "admin");
    assert_eq!(default_port(), 11090);
    assert_eq!(default_chain_id(), "testing");
    assert_eq!(default_node_url(None), "http://127.0.0.1:26657");
    assert_eq!(default_node_url(Some("http://node:1".to_string())), "http://node:1");
    assert_eq!(default_rpc_addr(None), "http://127.0.0.1");
    assert_eq!(default_rpc_addr(Some("http://enclave".to_string())), "http://enclave");
    assert!(!default_mocksgx_flag(None));
    assert!(!default_mocksgx_flag(Some("0")));
    assert!(default_mocksgx_flag(Some("1")));
    assert!(default_mocksgx_flag(Some("")));
    assert!(default_mocksgx_flag(Some("00")));
    assert_eq!(get_lock_file_path(), "/tmp/neutrond_wasm/wasm/wasm/exclusive.lock");
}

#[test]
fn names_with_an_extension_are_no_directories() {
    assert!(check_has_extension(b"app.txt"));
    assert!(check_has_extension(b"dir/app.tar.gz"));
    assert!(check_has_extension(b"a..b"));
    assert!(!check_has_extension(b"app"));
    assert!(!check_has_extension(b".hidden"));
    assert!(!check_has_extension(b"dir.d/app"));
    assert!(!check_has_extension(b".."));
    assert!(!check_has_extension(b"dir/.."));
    assert!(!check_has_extension(b""));
    assert!(!check_has_extension(b"dir/"));
    let request = |name: &str| InitRequest { name: name.to_string() };
    assert_eq!(request("quartz_app").check(false), Ok(()));
    assert_eq!(request("quartz_app").check(true), Err(InitError::AlreadyExists));
    assert_eq!(request("quartz.app").check(false), Err(InitError::NotADirectory));
    assert_eq!(request("quartz.app").check(true), Err(InitError::NotADirectory));
    let args = InitArgs { name: "quartz_app".to_string() };
    assert_eq!(args.name, "quartz_app");
    assert_eq!(ContractBuildArgs { contract_manifest: "Cargo.toml".to_string() }.contract_manifest, "Cargo.toml");
    assert!(EnclaveBuildArgs { release: true }.release);
    assert!(matches!(Response::Handshake { pub_key: "02".to_string() }, Response::Handshake { pub_key } if pub_key == "02"));
}

#[test]
fn trust_thresholds_are_read_as_fractions() {
    assert_eq!(parse_trust_threshold("2/3"), Some(TrustThreshold { numerator: 2, denominator: 3 }));
    assert_eq!(parse_trust_threshold("1/3"), Some(TrustThreshold { numerator: 1, denominator: 3 }));
    assert_eq!(parse_trust_threshold("+2/+3"), Some(TrustThreshold { numerator: 2, denominator: 3 }));
    assert_eq!(parse_trust_threshold("02/03"), Some(TrustThreshold { numerator: 2, denominator: 3 }));
    assert_eq!(parse_trust_threshold("1/4"), None);
    assert_eq!(parse_trust_threshold("4/3"), None);
    assert_eq!(parse_trust_threshold("2"), None);
    assert_eq!(parse_trust_threshold("2/"), None);
    assert_eq!(parse_trust_threshold("/3"), None);
    assert_eq!(parse_trust_threshold("2/3/4"), None);
    assert_eq!(parse_trust_threshold(" 2/3"), None);
    assert_eq!(parse_trust_threshold("-2/3"), None);
    assert_eq!(parse_trust_threshold("18446744073709551616/18446744073709551616"), None);
    assert_eq!(
        parse_trust_threshold("18446744073709551615/18446744073709551615").map(|t| t.denominator),
        Some(u64::MAX)
    );
}

#[test]
fn deployment_logs_are_read_by_place() {
    let attribute = |k: &str, v: &str| Attribute { key: k.to_string(), value: v.to_string() };
    let logs = vec![Log {
        events: vec![
            Event { attributes: vec![attribute("action", "store")], r_type: "message".to_string() },
            Event {
                attributes: vec![attribute("checksum", "abc"), attribute("code_id", "17")],
                r_type: "store_code".to_string(),
            },
        ],
        msg_index: 0,
    }];
    assert_eq!(log_value(&logs, 1, 1).map(|s| s.as_str()), Some("17"));
    assert_eq!(contract_addr_of(&logs).map(|s| s.as_str()), Some("abc"));
    assert_eq!(log_value(&logs, 1, 2), None);
    assert_eq!(log_value(&logs, 2, 0), None);
    assert_eq!(log_value(&vec![], 0, 0), None);
    let events = &logs[0].events;
    assert_eq!(event_attribute(events, "store_code", "code_id").map(|s| s.as_str()), Some("17"));
    assert_eq!(event_attribute(events, "store_code", "pub_key"), None);
    assert_eq!(event_attribute(events, "wasm", "code_id"), None);
    assert_eq!(find_pub_key(events), None);
    let wasm = vec![
        Event { attributes: vec![attribute("pub_key", "02ab")], r_type: "wasm".to_string() },
        Event { attributes: vec![attribute("pub_key", "03cd")], r_type: "wasm".to_string() },
    ];
    assert_eq!(find_pub_key(&wasm).map(|s| s.as_str()), Some("02ab"));
}

#[test]
fn a_contract_has_changed_when_its_hash_differs() {
    assert!(contract_has_changed(1, None));
    assert!(contract_has_changed(1, Some(DeployedContract { code_id: 5, contract_hash: 2 })));
    assert!(!contract_has_changed(1, Some(DeployedContract { code_id: 5, contract_hash: 1 })));
    assert_eq!(gen_hash(b""), 0x2d06800538d394c2);
    assert_ne!(gen_hash(b"a"), gen_hash(b"b"));
    assert_eq!(gen_hash(b"contract"), xxhash_rust::xxh3::xxh3_64(b"contract"));
}

#[test]
fn events_become_operations() {
    let contract = address(7);
    let transfer = ChainEvent {
        events: Some(attributes(&[
            ("execute._contract_address", &[contract.as_str()]),
            ("wasm-transfer.action", &["user"]),
        ])),
    };
    match TransfersOpEvent::try_from(&transfer) {
        Ok(TransfersOpEvent::Transfer { contract_address }) => {
            assert_eq!(contract_address.as_bytes(), contract.as_bytes())
        }
        _ => panic!("a transfer was expected"),
    }
    let query = ChainEvent {
        events: Some(attributes(&[
            ("wasm-transfer.action", &["user"]),
            ("execute._contract_address", &[contract.as_str(), "ignored"]),
            ("message.sender", &["alice"]),
            ("wasm-query_balance.emphemeral_pubkey", &["02ab"]),
        ])),
    };
    match TransfersOpEvent::try_from(&query) {
        Ok(TransfersOpEvent::Query { contract_address, ephemeral_pubkey, sender }) => {
            assert_eq!(contract_address.as_bytes(), contract.as_bytes());
            assert_eq!(ephemeral_pubkey, b"02ab".to_vec());
            assert_eq!(sender, b"alice".to_vec());
        }
        _ => panic!("a question was expected"),
    }
}

#[test]
fn events_that_lack_something_give_no_operation() {
    let contract = address(7);
    let error = |pairs: &[(&str, &[&str])]| {
        TransfersOpEvent::try_from(&ChainEvent { events: Some(attributes(pairs)) }).err()
    };
    assert_eq!(TransfersOpEvent::try_from(&ChainEvent { events: None }).err(), Some(EventError::Unsupported));
    assert_eq!(error(&[]), Some(EventError::Unsupported));
    assert_eq!(error(&[("tx.height", &["5"])]), Some(EventError::Unsupported));
    assert_eq!(error(&[("wasm-transfer.action", &["x"])]), Some(EventError::MissingContractAddress));
    assert_eq!(
        error(&[("wasm-transfer.action", &["x"]), ("execute._contract_address", &[])]),
        Some(EventError::EmptyContractAddress)
    );
    assert_eq!(
        error(&[("wasm-transfer.action", &["x"]), ("execute._contract_address", &["nobody"])]),
        Some(EventError::ParseContractAddress)
    );
    let c: &[&str] = &[contract.as_str()];
    assert_eq!(
        error(&[("wasm-query_balance.x", &[]), ("execute._contract_address", c)]),
        Some(EventError::MissingSender)
    );
    assert_eq!(
        error(&[("wasm-query_balance.x", &[]), ("execute._contract_address", c), ("message.sender", &["a"])]),
        Some(EventError::MissingEphemeralPubkey)
    );
    assert_eq!(
        error(&[
            ("execute._contract_address", c),
            ("message.sender", &["a"]),
            ("wasm-query_balance.emphemeral_pubkey", &[]),
        ]),
        Some(EventError::EmptyEphemeralPubkey)
    );
    assert_eq!(
        error(&[
            ("execute._contract_address", c),
            ("message.sender", &[]),
            ("wasm-query_balance.emphemeral_pubkey", &["02"]),
        ]),
        Some(EventError::EmptySender)
    );
    let info = extract_event_info(
        TransfersOpEventTypes::Query,
        &attributes(&[
            ("execute._contract_address", c),
            ("message.sender", &[]),
            ("wasm-query_balance.emphemeral_pubkey", &["02"]),
        ]),
    )
    .expect("what the event holds");
    assert_eq!(info.sender, None);
    assert_eq!(info.ephemeral_pubkey, Some(b"02".to_vec()));
    let info = extract_event_info(TransfersOpEventTypes::Transfer, &attributes(&[("execute._contract_address", c)]))
        .expect("what the event holds");
    assert_eq!(info.contract_address.as_bytes(), contract.as_bytes());
    assert_eq!(info.sender, None);
}

#[test]
fn the_queue_holds_one_operation_and_two_blocks_pass_between_two() {
    let mut d: Dispatcher<u8> = Dispatcher::new();
    assert_eq!(d.next_step(), Step::AwaitOperation);
    assert_eq!(d.take(), None);
    assert_eq!(d.offer(1), None);
    assert_eq!(d.offer(2), Some(2));
    assert_eq!(d.next_step(), Step::Run);
    assert_eq!(d.take(), Some(1));
    assert_eq!(d.next_step(), Step::AwaitCompletion);
    assert_eq!(d.offer(2), None);
    assert_eq!(d.take(), None);
    d.new_block();
    assert_eq!(d.next_step(), Step::AwaitCompletion);
    d.completed();
    assert_eq!(d.next_step(), Step::AwaitBlock);
    assert_eq!(d.take(), None);
    d.new_block();
    assert_eq!(d.next_step(), Step::AwaitBlock);
    assert_eq!(d.take(), None);
    d.new_block();
    assert_eq!(d.next_step(), Step::Run);
    assert_eq!(d.take(), Some(2));
    d.completed();
    d.completed();
    d.new_block();
    d.new_block();
    assert_eq!(d.next_step(), Step::AwaitOperation);
    d.new_block();
    assert_eq!(d.next_step(), Step::AwaitOperation);
    assert_eq!(Consumer::Waiting(2), Consumer::Waiting(2));
}

#[test]
fn waiting_for_blocks_counts_down() {
    assert_eq!(wait_step(2, StreamItem::NewBlock), WaitOutcome::Continue(1));
    assert_eq!(wait_step(1, StreamItem::NewBlock), WaitOutcome::Done);
    assert_eq!(wait_step(2, StreamItem::Failure), WaitOutcome::Failed);
    assert_eq!(wait_step(2, StreamItem::End), WaitOutcome::Failed);
    assert_eq!(wait_step(1, StreamItem::End), WaitOutcome::Failed);
}

fn chain_args() -> ChainArgs {
    ChainArgs {
        chain_id: b"testing".to_vec(),
        contract: b"cosmos1contract".to_vec(),
        sender: b"admin".to_vec(),
        trusted_height: 17,
        trusted_hash: [0xcd; 32],
    }
}

fn submission() -> Submission {
    Submission {
        contract: b"cosmos1contract".to_vec(),
        chain_id: b"testing".to_vec(),
        sender: b"admin".to_vec(),
    }
}

fn prover(storage_key: &[u8]) -> ProverConfig {
    ProverConfig {
        chain_id: b"testing".to_vec(),
        contract: b"cosmos1contract".to_vec(),
        storage_key: storage_key.to_vec(),
        trusted_height: 17,
        trusted_hash: [0xcd; 32],
    }
}

#[test]
fn the_handshake_goes_step_by_step() {
    let args = chain_args();
    let events = [
        (HandshakeEvent::Begin, HandshakeAction::RelaySessionCreate),
        (HandshakeEvent::Relayed, HandshakeAction::SubmitTx(submission())),
        (HandshakeEvent::Submitted, HandshakeAction::AwaitCommit),
        (HandshakeEvent::Committed, HandshakeAction::AwaitBlock),
        (HandshakeEvent::NewBlock, HandshakeAction::AwaitBlock),
        (HandshakeEvent::NewBlock, HandshakeAction::Prove(prover(b"quartz_session"))),
        (HandshakeEvent::Proved, HandshakeAction::RelaySessionSetPubKey),
        (HandshakeEvent::Relayed, HandshakeAction::SubmitTx(submission())),
        (HandshakeEvent::Submitted, HandshakeAction::AwaitCommit),
        (HandshakeEvent::Committed, HandshakeAction::ReadKey),
        (HandshakeEvent::KeyRead(true), HandshakeAction::Finish),
    ];
    let mut state = HandshakeState::Start;
    for (event, action) in events {
        let (next, what) = handshake(&args, state, event);
        assert_eq!(what, action);
        state = next;
    }
    assert_eq!(state, HandshakeState::Done);
    assert_eq!(handshake(&args, state, HandshakeEvent::Begin), (HandshakeState::Done, HandshakeAction::Ignore));
    assert_eq!(
        handshake(&args, HandshakeState::ReadingKey, HandshakeEvent::KeyRead(false)),
        (HandshakeState::Failed, HandshakeAction::Abort)
    );
    assert_eq!(
        handshake(&args, HandshakeState::Proving, HandshakeEvent::Failure),
        (HandshakeState::Failed, HandshakeAction::Abort)
    );
    assert_eq!(
        handshake(&args, HandshakeState::Proving, HandshakeEvent::NewBlock),
        (HandshakeState::Proving, HandshakeAction::Ignore)
    );
    assert_eq!(
        handshake(&args, HandshakeState::Failed, HandshakeEvent::Failure),
        (HandshakeState::Failed, HandshakeAction::Ignore)
    );
}

#[test]
fn the_handshake_keeps_to_the_chain_it_was_started_with() {
    let mut args = chain_args();
    args.chain_id = b"pion-1".to_vec();
    let (_, create) = handshake(&args, HandshakeState::CreatingSession, HandshakeEvent::Relayed);
    let (_, set) = handshake(&args, HandshakeState::SettingPubKey, HandshakeEvent::Relayed);
    let (_, prove) = handshake(&args, HandshakeState::WaitingBlocks(1), HandshakeEvent::NewBlock);
    for action in [create, set] {
        match action {
            HandshakeAction::SubmitTx(s) => assert_eq!(s.chain_id, b"pion-1".to_vec()),
            _ => panic!("a transaction was expected"),
        }
    }
    match prove {
        HandshakeAction::Prove(p) => {
            assert_eq!(p.chain_id, b"pion-1".to_vec());
            assert_eq!(p.storage_key, b"quartz_session".to_vec());
            assert_eq!(p.trusted_height, 17);
            assert_eq!(p.trusted_hash, [0xcd; 32]);
        }
        _ => panic!("a proof was expected"),
    }
}

#[test]
fn operations_go_step_by_step() {
    let args = chain_args();
    let mut state = OperationState::Start;
    let transfer = [
        (OperationEvent::Begin, OperationAction::Fetch),
        (OperationEvent::Fetched, OperationAction::AwaitBlock),
        (OperationEvent::NewBlock, OperationAction::AwaitBlock),
        (OperationEvent::NewBlock, OperationAction::Prove(prover(b"requests"))),
        (OperationEvent::Proved, OperationAction::CallEnclave),
        (OperationEvent::Answered, OperationAction::SubmitTx(submission())),
        (OperationEvent::Submitted, OperationAction::Finish),
    ];
    for (event, action) in transfer {
        let (next, what) = transfer_handler(&args, state, event);
        assert_eq!(what, action);
        assert_eq!((next, what), operation_step(&args, OperationKind::Transfer, state, event));
        state = next;
    }
    assert_eq!(state, OperationState::Done);
    let mut state = OperationState::Start;
    let query = [
        (OperationEvent::Begin, OperationAction::Fetch),
        (OperationEvent::Fetched, OperationAction::CallEnclave),
        (OperationEvent::Answered, OperationAction::SubmitTx(submission())),
        (OperationEvent::Submitted, OperationAction::Finish),
    ];
    for (event, action) in query {
        let (next, what) = query_handler(&args, state, event);
        assert_eq!(what, action);
        state = next;
    }
    assert_eq!(state, OperationState::Done);
    assert_eq!(
        query_handler(&args, OperationState::Running, OperationEvent::Failure),
        (OperationState::Failed, OperationAction::Abort)
    );
    assert_eq!(
        query_handler(&args, OperationState::Running, OperationEvent::NewBlock),
        (OperationState::Running, OperationAction::Ignore)
    );
}

#[test]
fn an_enclave_on_hardware_needs_its_settings() {
    let all = StartSettings {
        mock_sgx: false,
        has_fmspc: true,
        has_tcbinfo_contract: true,
        has_dcap_verifier_contract: true,
        has_admin_key: true,
    };
    assert_eq!(check_enclave_start(&all), Ok(()));
    assert_eq!(check_enclave_start(&StartSettings { has_fmspc: false, has_admin_key: false, ..all }), Err(StartError::FmspcRequired));
    assert_eq!(
        check_enclave_start(&StartSettings { has_tcbinfo_contract: false, has_dcap_verifier_contract: false, ..all }),
        Err(StartError::TcbinfoContractRequired)
    );
    assert_eq!(
        check_enclave_start(&StartSettings { has_dcap_verifier_contract: false, ..all }),
        Err(StartError::DcapVerifierContractRequired)
    );
    assert_eq!(check_enclave_start(&StartSettings { has_admin_key: false, ..all }), Err(StartError::AdminKeyRequired));
    let mock = StartSettings {
        mock_sgx: true,
        has_fmspc: false,
        has_tcbinfo_contract: false,
        has_dcap_verifier_contract: false,
        has_admin_key: false,
    };
    assert_eq!(check_enclave_start(&mock), Ok(()));
}

#[test]
fn a_transaction_that_is_not_found_yet_is_asked_for_again() {
    let hash = "AB".repeat(32);
    assert!(says_tx_not_found(&format!("tx ({hash}) not found")));
    assert!(says_tx_not_found(&format!("error: tx ({hash}) not found, try later")));
    assert!(!says_tx_not_found(&format!("tx ({}) not found", "ab".repeat(32))));
    assert!(!says_tx_not_found("tx (AB) not found"));
    assert!(!says_tx_not_found(""));
    assert_eq!(block_tx_commit(TxQuery::Found), Poll::Done);
    assert_eq!(block_tx_commit(TxQuery::ResponseError { says_not_found: true }), Poll::RetryAfter(400));
    assert_eq!(block_tx_commit(TxQuery::ResponseError { says_not_found: false }), Poll::Fail);
    assert_eq!(block_tx_commit(TxQuery::OtherError), Poll::Fail);
}

#[test]
fn epoch_keys_name_the_epoch() {
    assert_eq!(epoch_key(b"obligations", 1), b"1/obligations".to_vec());
    assert_eq!(current_epoch_key(b"liquidity_sources", 12), b"12/liquidity_sources".to_vec());
    assert_eq!(previous_epoch_key(b"setoffs", 12), b"11/setoffs".to_vec());
    assert_eq!(epoch_key(b"state", u64::MAX), b"18446744073709551615/state".to_vec());
}

#[test]
fn epoch_rollover() {
    let mut enclave = quartz::enclave::EnclaveState::new();
    let key = enclave.generate(false).expect("a key");
    let mut epochs = Epochs::new();
    assert_eq!(epochs.epoch_counter(), 1);
    assert_eq!(epochs.append_liquidity_sources(vec![key.clone()]), Ok(()));
    assert_eq!(epochs.init_clearing(), Ok(()));
    assert_eq!(epochs.epoch_counter(), 2);
    assert_eq!(epochs.get_liquidity_sources(Some(1)), Ok(vec![key.clone()]));
    assert_eq!(epochs.get_liquidity_sources(None), Ok(vec![]));
    assert_eq!(epochs.get_liquidity_sources(Some(2)), Ok(vec![]));
    assert_eq!(epochs.get_liquidity_sources(Some(3)), Err(ClearingError::NoSuchEpoch));
    assert_eq!(epochs.get_liquidity_sources(Some(0)), Err(ClearingError::NoSuchEpoch));
    assert_eq!(epochs.append_liquidity_sources(vec![key.clone(), vec![1, 2]]), Err(ClearingError::InvalidPubKey));
    assert_eq!(epochs.get_liquidity_sources(None), Ok(vec![]));
    assert_eq!(epochs.append_liquidity_sources(vec![key.clone(), key.clone()]), Ok(()));
    assert_eq!(epochs.get_liquidity_sources(None), Ok(vec![key.clone(), key.clone()]));
    assert_eq!(epochs.get_liquidity_sources(Some(1)), Ok(vec![key]));
}

#[test]
fn obligations_are_kept_once_per_digest() {
    let mut epochs = Epochs::new();
    assert_eq!(epochs.submit_obligation(vec![1], vec![7; 32]), Ok(()));
    assert_eq!(epochs.submit_obligation(vec![2], vec![8; 32]), Ok(()));
    assert_eq!(epochs.submit_obligation(vec![3], vec![7; 32]), Err(ClearingError::DuplicateEntry));
    assert_eq!(epochs.submit_obligation(vec![3], vec![7; 31]), Err(ClearingError::InvalidDigest));
    assert_eq!(epochs.init_clearing(), Ok(()));
    assert_eq!(epochs.submit_obligation(vec![3], vec![7; 32]), Ok(()));
}

#[test]
fn retries_wait_twice_as_long_each_time() {
    let policy = RetryPolicy { base_ms: 400, max_attempts: 4 };
    assert_eq!(backoff(&policy, 0), Some(400));
    assert_eq!(backoff(&policy, 1), Some(800));
    assert_eq!(backoff(&policy, 3), Some(3200));
    assert_eq!(backoff(&policy, 4), None);
    assert_eq!(backoff(&policy, u32::MAX), None);
    let long = RetryPolicy { base_ms: 1 << 62, max_attempts: 100 };
    assert_eq!(backoff(&long, 1), Some(1 << 63));
    assert_eq!(backoff(&long, 2), Some(u64::MAX));
    assert_eq!(backoff(&long, 99), Some(u64::MAX));
    assert_eq!(backoff(&RetryPolicy { base_ms: 0, max_attempts: 1 }, 0), Some(0));
    assert_eq!(backoff(&RetryPolicy { base_ms: 5, max_attempts: 0 }, 0), None);
}
