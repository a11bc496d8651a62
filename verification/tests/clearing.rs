use quartz::account::AccountId;
use quartz::attested::{Attested, AttestationRejected, MockAttestation};
use quartz::attestor::MockAttestor;
use quartz::attested::{DcapAttestation, HasUserData};
use quartz::clearing::{ClearingContract, ExecuteMsg, SubmitSetoffsMsg};
use quartz::contract::{ContractError, QuartzExecuteMsg};
use quartz::quote::Quote;
use quartz::session::SessionCreate;
use sha2::{Digest, Sha256};
use quartz::epoch::{ClearingError, SettleOff, State, Transfer};
use quartz::instantiate::CoreInstantiate;
use quartz::light_client::{Options, TrustThreshold};

fn address(fill: u8) -> String {
    subtle_encoding::bech32::encode("cosmos", [fill; 20])
}

fn account(fill: u8) -> AccountId {
    AccountId::parse(address(fill).as_bytes()).expect("an account id")
}

fn message(mr_enclave: [u8; 32]) -> CoreInstantiate {
    let options = Options {
        trust_threshold: TrustThreshold { numerator: 2, denominator: 3 },
        trusting_period: 1_209_600,
        clock_drift: 5,
        max_block_lag: 6,
    };
    CoreInstantiate::new(mr_enclave, b"testing".to_vec(), 17, [0xcd; 32], options)
}

fn attested() -> Attested<CoreInstantiate, MockAttestation> {
    let msg = message([0; 32]);
    let attestation = MockAttestor.attestation(&msg);
    Attested::new(msg, attestation)
}

fn fresh() -> ClearingContract {
    ClearingContract::instantiate(account(7), address(1), &attested(), true).expect("a contract")
}

fn pay(payer: u8, payee: u8, amount: u64) -> SettleOff {
    SettleOff::Transfer(Transfer { payer: address(payer), payee: address(payee), amount })
}

#[test]
fn a_fresh_contract_has_an_owner_an_empty_epoch_and_an_empty_token() {
    let contract = fresh();
    assert_eq!(contract.state, State { owner: address(1) });
    assert_eq!(contract.epochs.epoch_counter(), 1);
    assert_eq!(contract.epochs.get_liquidity_sources(None), Ok(vec![]));
    assert_eq!(contract.epochs.get_liquidity_sources(Some(1)), Ok(vec![]));
    assert_eq!(contract.quartz.epoch_counter(), 1);
    assert_eq!(contract.quartz.get_nonce(), None);
    assert_eq!(contract.token_ref().total_supply(), 0);
    assert_eq!(contract.token_ref().minter(), &address(7).into_bytes());
    assert_eq!(contract.token_ref().balance(address(1).as_bytes()), 0);
    assert!(matches!(contract.get_all_setoffs(), Err(ClearingError::NoSuchEpoch)));
}

#[test]
fn a_contract_is_not_made_on_an_attestation_that_is_refused() {
    assert!(matches!(
        ClearingContract::instantiate(account(7), address(1), &attested(), false),
        Err(ClearingError::AttestationRejected(AttestationRejected::Collateral))
    ));
    let forged = Attested::new(message([1; 32]), MockAttestation([0; 64]));
    assert!(matches!(
        ClearingContract::instantiate(account(7), address(1), &forged, true),
        Err(ClearingError::AttestationRejected(AttestationRejected::UserData))
    ));
    let other = message([1; 32]);
    let attestation = MockAttestor.attestation(&other);
    assert!(matches!(
        ClearingContract::instantiate(account(7), address(1), &Attested::new(other, attestation), true),
        Err(ClearingError::AttestationRejected(AttestationRejected::MrEnclave))
    ));
}

#[test]
fn setoffs_that_move_no_tokens_are_kept_under_the_epoch_before() {
    let mut contract = fresh();
    assert_eq!(contract.init_clearing(), Ok(()));
    assert_eq!(contract.epochs.epoch_counter(), 2);
    let setoffs = vec![
        (vec![1u8; 32], SettleOff::SetOff(vec![vec![9], vec![8]])),
        (vec![2u8; 32], pay(3, 3, 5)),
    ];
    assert_eq!(contract.submit_setoffs(setoffs.clone()), Ok(()));
    assert_eq!(contract.get_all_setoffs(), Ok(&setoffs));
    assert_eq!(contract.token_ref().total_supply(), 0);
    assert_eq!(contract.token_ref().balance(address(3).as_bytes()), 0);
    assert_eq!(contract.init_clearing(), Ok(()));
    assert!(matches!(contract.get_all_setoffs(), Err(ClearingError::NoSuchEpoch)));
}

#[test]
fn a_payer_without_tokens_cannot_pay_and_nothing_is_kept() {
    let mut contract = fresh();
    let setoffs = vec![(vec![1u8; 32], SettleOff::SetOff(vec![])), (vec![2u8; 32], pay(3, 4, 5))];
    assert_eq!(contract.submit_setoffs(setoffs), Err(ClearingError::InsufficientFunds));
    assert!(matches!(contract.get_all_setoffs(), Err(ClearingError::NoSuchEpoch)));
    assert_eq!(contract.token_ref().balance(address(4).as_bytes()), 0);
    assert_eq!(contract.token_ref().total_supply(), 0);
}

#[test]
fn paying_oneself_needs_no_tokens_and_moves_none() {
    let mut contract = fresh();
    assert_eq!(contract.submit_setoffs(vec![(vec![2u8; 32], pay(3, 3, 5))]), Ok(()));
    assert_eq!(contract.token_ref().balance(address(3).as_bytes()), 0);
    assert_eq!(contract.token_ref().total_supply(), 0);
    assert_eq!(contract.submit_setoffs(vec![(vec![2u8; 32], pay(3, 3, u64::MAX))]), Ok(()));
    assert_eq!(contract.token_ref().balance(address(3).as_bytes()), 0);
}

#[test]
fn a_payment_moves_its_amount_and_keeps_the_supply() {
    let mut contract = fresh();
    assert_eq!(contract.faucet_mint(&address(3), 10), Ok(()));
    assert_eq!(contract.faucet_mint(&address(5), 1), Ok(()));
    assert_eq!(contract.token_ref().total_supply(), 11);
    assert_eq!(contract.init_clearing(), Ok(()));
    let setoffs = vec![
        (vec![1u8; 32], pay(3, 4, 6)),
        (vec![2u8; 32], SettleOff::SetOff(vec![vec![7]])),
        (vec![3u8; 32], pay(4, 5, 2)),
    ];
    assert_eq!(contract.submit_setoffs(setoffs.clone()), Ok(()));
    assert_eq!(contract.token_ref().balance(address(3).as_bytes()), 4);
    assert_eq!(contract.token_ref().balance(address(4).as_bytes()), 4);
    assert_eq!(contract.token_ref().balance(address(5).as_bytes()), 3);
    assert_eq!(contract.token_ref().total_supply(), 11);
    assert_eq!(contract.get_all_setoffs(), Ok(&setoffs));
    assert_eq!(contract.epochs.epoch_counter(), 2);
}

#[test]
fn a_payment_that_cannot_be_made_undoes_those_before_it() {
    let mut contract = fresh();
    assert_eq!(contract.faucet_mint(&address(3), 10), Ok(()));
    let setoffs = vec![(vec![1u8; 32], pay(3, 4, 6)), (vec![2u8; 32], pay(3, 4, 5))];
    assert_eq!(contract.submit_setoffs(setoffs), Err(ClearingError::InsufficientFunds));
    assert_eq!(contract.token_ref().balance(address(3).as_bytes()), 10);
    assert_eq!(contract.token_ref().balance(address(4).as_bytes()), 0);
    assert_eq!(contract.token_ref().total_supply(), 10);
    assert!(matches!(contract.get_all_setoffs(), Err(ClearingError::NoSuchEpoch)));
}

#[test]
fn minting_stops_where_numbers_end() {
    let mut contract = fresh();
    assert_eq!(contract.faucet_mint(&address(3), u64::MAX), Ok(()));
    assert_eq!(contract.token_ref().balance(address(3).as_bytes()), u64::MAX as u128);
    assert_eq!(contract.token_ref().total_supply(), u64::MAX as u128);
    assert_eq!(contract.faucet_mint(&address(3), 0), Ok(()));
    assert_eq!(contract.token_ref().total_supply(), u64::MAX as u128);
}

fn setoffs_msg() -> SubmitSetoffsMsg {
    SubmitSetoffsMsg {
        setoffs_enc: vec![
            (vec![0xab; 32], SettleOff::SetOff(vec![vec![1, 2], vec![]])),
            (vec![0xcd; 32], pay(3, 3, 5)),
        ],
    }
}

fn attested_setoffs() -> Attested<SubmitSetoffsMsg, MockAttestation> {
    let msg = setoffs_msg();
    let attestation = MockAttestor.attestation(&msg);
    Attested::new(msg, attestation)
}

#[test]
fn the_setoffs_message_binds_the_digest_of_its_text() {
    let text = format!(
        r#"{{"setoffs_enc":{{"{}":["0102",""],"{}":{{"payer":"{}","payee":"{}","amount":5}}}}}}"#,
        "ab".repeat(32),
        "cd".repeat(32),
        address(3),
        address(3)
    );
    assert_eq!(setoffs_msg().to_json(), text.clone().into_bytes());
    let mut expected = Sha256::digest(text.as_bytes()).to_vec();
    expected.extend_from_slice(&[0u8; 32]);
    assert_eq!(setoffs_msg().user_data().to_vec(), expected);
    assert_eq!(SubmitSetoffsMsg { setoffs_enc: vec![] }.to_json(), br#"{"setoffs_enc":{}}"#.to_vec());
    let odd = SubmitSetoffsMsg {
        setoffs_enc: vec![(
            vec![],
            SettleOff::Transfer(Transfer { payer: "a\"b".to_string(), payee: "c\\d".to_string(), amount: 0 }),
        )],
    };
    assert_eq!(
        odd.to_json(),
        br#"{"setoffs_enc":{"":{"payer":"a\"b","payee":"c\\d","amount":0}}}"#.to_vec()
    );
}

#[test]
fn setoffs_come_in_only_with_an_attestation_that_is_accepted() {
    let mut contract = fresh();
    assert_eq!(contract.execute(ExecuteMsg::SubmitSetoffs(attested_setoffs()), false),
        Err(ClearingError::AttestationRejected(AttestationRejected::Collateral)));
    let forged = Attested::new(setoffs_msg(), MockAttestation([0; 64]));
    assert_eq!(contract.execute(ExecuteMsg::SubmitSetoffs(forged), true),
        Err(ClearingError::AttestationRejected(AttestationRejected::UserData)));
    let mut quote = vec![0u8; 436];
    quote[0] = 3;
    quote[2] = 2;
    quote[112..144].copy_from_slice(&[1; 32]);
    quote[368..432].copy_from_slice(&setoffs_msg().user_data());
    let other_code = DcapAttestation::new(Quote::parse(&quote).expect("a quote"), vec![0x80]).expect("an attestation");
    assert_eq!(
        contract.execute(ExecuteMsg::SubmitSetoffs(Attested::new(setoffs_msg(), other_code)), true),
        Err(ClearingError::AttestationRejected(AttestationRejected::MrEnclave))
    );
    assert!(matches!(contract.get_all_setoffs(), Err(ClearingError::NoSuchEpoch)));
    assert_eq!(contract.token_ref().total_supply(), 0);
    assert_eq!(contract.execute(ExecuteMsg::SubmitSetoffs(attested_setoffs()), true), Ok(()));
    assert_eq!(contract.get_all_setoffs(), Ok(&setoffs_msg().setoffs_enc));
}

#[test]
fn each_message_reaches_its_handler() {
    let mut contract = fresh();
    let mint = |recipient: u8, amount| ExecuteMsg::<MockAttestation>::FaucetMint { recipient: address(recipient), amount };
    assert_eq!(contract.execute(mint(3, 10), true), Ok(()));
    assert_eq!(contract.token_ref().balance(address(3).as_bytes()), 10);
    let transfer = |amount| ExecuteMsg::<MockAttestation>::Transfer { sender: address(3), recipient: address(4), amount };
    assert_eq!(contract.execute(transfer(4), true), Ok(()));
    assert_eq!(contract.execute(transfer(7), true), Err(ClearingError::InsufficientFunds));
    assert_eq!(contract.token_ref().balance(address(3).as_bytes()), 6);
    assert_eq!(contract.token_ref().balance(address(4).as_bytes()), 4);
    assert_eq!(contract.token_ref().total_supply(), 10);
    let to_self = ExecuteMsg::<MockAttestation>::Transfer { sender: address(3), recipient: address(3), amount: 6 };
    assert_eq!(contract.execute(to_self, true), Ok(()));
    assert_eq!(contract.token_ref().balance(address(3).as_bytes()), 6);
    let one = ExecuteMsg::<MockAttestation>::SubmitObligation { ciphertext: vec![1], digest: vec![7; 32] };
    assert_eq!(contract.execute(one, true), Ok(()));
    let again = ExecuteMsg::<MockAttestation>::SubmitObligation { ciphertext: vec![2], digest: vec![7; 32] };
    assert_eq!(contract.execute(again, true), Err(ClearingError::DuplicateEntry));
    assert_eq!(contract.execute(ExecuteMsg::<MockAttestation>::InitClearing, true), Ok(()));
    assert_eq!(contract.epochs.epoch_counter(), 2);
    let create = SessionCreate::new([5; 32], account(7));
    let attestation = MockAttestor.attestation(&create);
    let handshake = ExecuteMsg::Quartz(QuartzExecuteMsg::SessionCreate(Attested::new(create, attestation)));
    assert_eq!(contract.execute(handshake, true), Ok(()));
    assert_eq!(contract.quartz.get_nonce(), Some([5; 32]));
    let elsewhere = SessionCreate::new([6; 32], account(8));
    let attestation = MockAttestor.attestation(&elsewhere);
    let handshake = ExecuteMsg::Quartz(QuartzExecuteMsg::SessionCreate(Attested::new(elsewhere, attestation)));
    assert_eq!(contract.execute(handshake, true), Err(ClearingError::Handshake(ContractError::ContractMismatch)));
    assert_eq!(contract.quartz.get_nonce(), Some([5; 32]));
}

#[test]
fn obligations_of_one_message_are_stored_together_or_not_at_all() {
    let key = k256::ecdsa::SigningKey::from_slice(&[3; 32])
        .expect("a key")
        .verifying_key()
        .to_sec1_bytes()
        .to_vec();
    let submit = |obligations: Vec<(Vec<u8>, Vec<u8>)>, liquidity_sources: Vec<Vec<u8>>| {
        ExecuteMsg::<MockAttestation>::SubmitObligations { obligations, liquidity_sources }
    };
    let mut contract = fresh();
    let with_a_short_digest = vec![(vec![1], vec![7; 32]), (vec![2], vec![8; 31])];
    assert_eq!(contract.execute(submit(with_a_short_digest, vec![key.clone()]), true), Err(ClearingError::InvalidDigest));
    let twice = vec![(vec![1], vec![7; 32]), (vec![2], vec![7; 32])];
    assert_eq!(contract.execute(submit(twice, vec![]), true), Err(ClearingError::DuplicateEntry));
    let with_no_key = vec![(vec![1], vec![7; 32])];
    assert_eq!(contract.execute(submit(with_no_key, vec![vec![4; 33]]), true), Err(ClearingError::InvalidPubKey));
    assert_eq!(contract.epochs.get_liquidity_sources(None), Ok(vec![]));
    assert_eq!(contract.epochs.submit_obligation(vec![1], vec![7; 32]), Ok(()));
    let mut contract = fresh();
    let good = vec![(vec![1], vec![7; 32]), (vec![2], vec![8; 32])];
    assert_eq!(contract.execute(submit(good, vec![key.clone()]), true), Ok(()));
    assert_eq!(contract.epochs.get_liquidity_sources(None), Ok(vec![key]));
    assert_eq!(contract.epochs.submit_obligation(vec![3], vec![7; 32]), Err(ClearingError::DuplicateEntry));
    assert_eq!(contract.epochs.submit_obligation(vec![3], vec![8; 32]), Err(ClearingError::DuplicateEntry));
    assert_eq!(contract.submit_obligations(vec![], vec![]), Ok(()));
}
