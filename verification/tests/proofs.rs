use quartz::light_client::{
    verify, verify_chain, BlockIdFlag, Commit, CommitSig, Header, Invalid, LightBlock, Options,
    TrustThreshold, Validator, ValidatorSet, Verdict,
};
use quartz::membership::{
    conclude, CommitmentProof, ExistenceProof, Ics23MembershipVerifier, InnerOp, LeafOp,
    ProofError, ProofSpec,
};
use quartz::proof_of_publication::{LightClientOpts, ProofOfPublication};
use quartz::error::{Error, LightClientError};
use sha2::{Digest, Sha256};

const NOW: u64 = 2_000;

fn signing_key(i: u8) -> ed25519_consensus::SigningKey {
    ed25519_consensus::SigningKey::from([i; 32])
}

fn pub_key(i: u8) -> Vec<u8> {
    signing_key(i).verification_key().to_bytes().to_vec()
}

fn address_of(i: u8) -> Vec<u8> {
    Sha256::digest(pub_key(i))[..20].to_vec()
}

fn validator(i: u8, power: u64) -> Validator {
    Validator { address: address_of(i), pub_key: pub_key(i), power }
}

fn hash_of(set: &ValidatorSet) -> [u8; 32] {
    let infos = set
        .validators
        .iter()
        .map(|v| {
            let key = tendermint::PublicKey::from_raw_ed25519(&v.pub_key).expect("a key");
            tendermint::validator::Info::new(key, tendermint::vote::Power::try_from(v.power).expect("a power"))
        })
        .collect();
    let hash = tendermint::validator::Set::without_proposer(infos).hash();
    hash.as_bytes().try_into().expect("32 bytes")
}

fn vote(i: u8, height: u64) -> CommitSig {
    let sign_bytes = format!("a vote for block {height}").into_bytes();
    let signature = signing_key(i).sign(&sign_bytes).to_bytes().to_vec();
    CommitSig { flag: BlockIdFlag::Commit, validator_address: address_of(i), sign_bytes, signature }
}

fn set(ids: &[u8]) -> ValidatorSet {
    ValidatorSet { validators: ids.iter().map(|i| validator(*i, 10)).collect() }
}

fn block(height: u64, ids: &[u8], next: &[u8], signers: &[u8]) -> LightBlock {
    let signatures =
        signers.iter().map(|i| vote(*i, height)).collect();
    LightBlock {
        header: Header {
            chain_id: b"testing".to_vec(),
            height,
            time: 1_900 + height,
            app_hash: vec![height as u8; 4],
            validators_hash: hash_of(&set(ids)),
            next_validators_hash: hash_of(&set(next)),
            hash: [height as u8; 32],
        },
        commit: Commit { height, block_id_hash: [height as u8; 32], signatures },
        validators: set(ids),
        next_validators: set(next),
    }
}

fn plain(height: u64, signers: &[u8]) -> LightBlock {
    block(height, &[1, 2, 3, 4], &[1, 2, 3, 4], signers)
}

fn options() -> Options {
    Options {
        trust_threshold: TrustThreshold { numerator: 1, denominator: 3 },
        trusting_period: 500,
        clock_drift: 5,
        max_block_lag: 5,
    }
}

fn verdict(trusted: &LightBlock, target: &LightBlock) -> Verdict {
    verify(trusted, target, b"testing", &options(), NOW)
}

fn is_invalid(v: Verdict, why: Invalid) -> bool {
    matches!(v, Verdict::Invalid(w) if w == why)
}

#[test]
fn the_next_block_needs_two_thirds_of_the_announced_validators() {
    let trusted = plain(1, &[1, 2, 3]);
    assert!(matches!(verdict(&trusted, &plain(2, &[1, 2, 3])), Verdict::Success(root) if root == vec![2u8; 4]));
    assert!(matches!(verdict(&trusted, &plain(2, &[1, 2, 3, 4])), Verdict::Success(_)));
    assert!(is_invalid(verdict(&trusted, &plain(2, &[1, 2])), Invalid::InsufficientSigners));
    let other_set = block(2, &[5, 6, 7], &[5, 6, 7], &[5, 6, 7]);
    assert!(is_invalid(verdict(&trusted, &other_set), Invalid::NextValidatorSet));
}

#[test]
fn a_later_block_needs_trust_and_two_thirds_of_its_own_validators() {
    let trusted = plain(1, &[1, 2, 3]);
    let own = block(5, &[3, 4, 5, 6], &[3, 4, 5, 6], &[3, 4, 5]);
    assert!(matches!(verdict(&trusted, &own), Verdict::Success(root) if root == vec![5u8; 4]));
    let little_trust = block(5, &[4, 5, 6], &[4, 5, 6], &[4, 5, 6]);
    assert!(matches!(verdict(&trusted, &little_trust), Verdict::NotEnoughTrust));
    let few_signers = block(5, &[1, 2, 5, 6, 7, 8], &[1], &[1, 2, 5]);
    assert!(is_invalid(verdict(&trusted, &few_signers), Invalid::InsufficientSigners));
    let exactly_a_third = block(5, &[1, 5, 6], &[1], &[1, 5, 6]);
    let three = block(1, &[1], &[1, 2, 3], &[1]);
    assert!(matches!(verify(&three, &exactly_a_third, b"testing", &options(), NOW), Verdict::NotEnoughTrust));
}

#[test]
fn a_signature_counts_only_under_the_validators_key() {
    let trusted = plain(1, &[1, 2, 3]);
    let mut target = plain(2, &[1, 2, 3]);
    target.commit.signatures[2].signature = signing_key(9).sign(b"a vote for block 2").to_bytes().to_vec();
    assert!(is_invalid(verdict(&trusted, &target), Invalid::InsufficientSigners));
    let mut other_bytes = plain(2, &[1, 2, 3]);
    other_bytes.commit.signatures[0].sign_bytes = b"a vote for block 3".to_vec();
    assert!(is_invalid(verdict(&trusted, &other_bytes), Invalid::InsufficientSigners));
    let mut for_nil = plain(2, &[1, 2, 3]);
    for_nil.commit.signatures[1].flag = BlockIdFlag::Nil;
    assert!(is_invalid(verdict(&trusted, &for_nil), Invalid::InsufficientSigners));
    let mut absent = plain(2, &[1, 2, 3]);
    absent.commit.signatures[1].flag = BlockIdFlag::Absent;
    assert!(is_invalid(verdict(&trusted, &absent), Invalid::InsufficientSigners));
    let mut no_signature = plain(2, &[1, 2, 3]);
    no_signature.commit.signatures[1].signature = Vec::new();
    assert!(is_invalid(verdict(&trusted, &no_signature), Invalid::InsufficientSigners));
    let mut other_address = plain(2, &[1, 2, 3]);
    other_address.commit.signatures[1].validator_address = address_of(3);
    assert!(is_invalid(verdict(&trusted, &other_address), Invalid::InsufficientSigners));
    let mut twice = plain(2, &[1, 1, 1, 2]);
    twice.commit.signatures.truncate(4);
    assert!(is_invalid(verdict(&trusted, &twice), Invalid::InsufficientSigners));
}

#[test]
fn blocks_that_break_a_rule_are_invalid() {
    let trusted = plain(3, &[1, 2, 3]);
    let good = || plain(4, &[1, 2, 3]);
    assert!(is_invalid(verify(&trusted, &good(), b"other", &options(), NOW), Invalid::ChainId));
    assert!(is_invalid(verdict(&trusted, &plain(3, &[1, 2, 3])), Invalid::Height));
    assert!(is_invalid(verdict(&trusted, &plain(2, &[1, 2, 3])), Invalid::Height));
    let mut early = good();
    early.header.time = 1_897;
    assert!(is_invalid(verdict(&trusted, &early), Invalid::TimeBeforeTrusted));
    let mut drifted = good();
    drifted.header.time = 1_898;
    assert!(matches!(verdict(&trusted, &drifted), Verdict::Success(_)));
    let mut future = good();
    future.header.time = NOW + 6;
    assert!(is_invalid(verdict(&trusted, &future), Invalid::TimeInFuture));
    future.header.time = NOW + 5;
    assert!(matches!(verdict(&trusted, &future), Verdict::Success(_)));
    assert!(is_invalid(verify(&trusted, &good(), b"testing", &options(), 2_405), Invalid::Expired));
    assert!(matches!(verify(&trusted, &good(), b"testing", &options(), 2_404), Verdict::Success(_)));
    let mut other_hash = good();
    other_hash.commit.block_id_hash = [0; 32];
    assert!(is_invalid(verdict(&trusted, &other_hash), Invalid::HeaderHash));
    let mut other_height = good();
    other_height.commit.height = 5;
    assert!(is_invalid(verdict(&trusted, &other_height), Invalid::CommitHeight));
    let mut other_set = good();
    other_set.header.validators_hash = [0; 32];
    assert!(is_invalid(verdict(&trusted, &other_set), Invalid::ValidatorSet));
    let mut other_next = good();
    other_next.header.next_validators_hash = [0; 32];
    assert!(is_invalid(verdict(&trusted, &other_next), Invalid::ValidatorSet));
    let mut other_power = good();
    other_power.validators.validators[0].power = 11;
    assert!(is_invalid(verdict(&trusted, &other_power), Invalid::ValidatorSet));
    let mut other_key = good();
    other_key.next_validators.validators[0].pub_key = pub_key(9);
    assert!(is_invalid(verdict(&trusted, &other_key), Invalid::ValidatorSet));
    let mut no_key = good();
    no_key.validators.validators[0].pub_key = vec![1; 31];
    assert!(is_invalid(verdict(&trusted, &no_key), Invalid::ValidatorSet));
    let mut too_heavy = good();
    too_heavy.validators.validators[0].power = u64::MAX;
    assert!(is_invalid(verdict(&trusted, &too_heavy), Invalid::ValidatorSet));
    let mut other_address = good();
    other_address.validators.validators[1].address = address_of(1);
    assert!(is_invalid(verdict(&trusted, &other_address), Invalid::MalformedValidatorSet));
    other_address.validators.validators[1].address = vec![2; 20];
    assert!(is_invalid(verdict(&trusted, &other_address), Invalid::MalformedValidatorSet));
    let mut twice = good();
    twice.validators.validators[1] = validator(1, 10);
    twice.header.validators_hash = hash_of(&twice.validators);
    assert!(is_invalid(verdict(&trusted, &twice), Invalid::MalformedValidatorSet));
    let mut heavy = good();
    heavy.validators.validators = vec![validator(1, 1 << 59), validator(2, 1 << 59)];
    heavy.header.validators_hash = [9; 32];
    assert!(is_invalid(verdict(&trusted, &heavy), Invalid::ValidatorSet));
    heavy.validators.validators = vec![validator(1, (1 << 59) - 1), validator(2, 1 << 59)];
    heavy.header.validators_hash = hash_of(&heavy.validators);
    assert!(is_invalid(verdict(&trusted, &heavy), Invalid::NextValidatorSet));
    heavy.validators.validators = vec![validator(1, u64::MAX), validator(2, u64::MAX)];
    assert!(is_invalid(verdict(&trusted, &heavy), Invalid::ValidatorSet));
}

#[test]
fn trust_threshold_is_from_a_third_to_one() {
    assert_eq!(TrustThreshold::new(1, 3), Some(TrustThreshold { numerator: 1, denominator: 3 }));
    assert_eq!(TrustThreshold::new(2, 3), Some(TrustThreshold::two_thirds()));
    assert_eq!(TrustThreshold::new(3, 3), Some(TrustThreshold { numerator: 3, denominator: 3 }));
    assert_eq!(TrustThreshold::new(1, 4), None);
    assert_eq!(TrustThreshold::new(4, 3), None);
    assert_eq!(TrustThreshold::new(0, 0), None);
    assert_eq!(TrustThreshold::new(u64::MAX, u64::MAX).map(|t| t.numerator), Some(u64::MAX));
}

#[test]
fn a_proof_is_a_chain_from_the_trusted_block() {
    let chain = vec![plain(1, &[1, 2, 3]), plain(2, &[1, 2, 3]), plain(7, &[2, 3, 4])];
    let v = verify_chain(1, &[1; 32], &chain, b"testing", &options(), NOW);
    assert!(matches!(v, Verdict::Success(root) if root == vec![7u8; 4]));
    let only_root = vec![plain(1, &[])];
    let v = verify_chain(1, &[1; 32], &only_root, b"testing", &options(), NOW);
    assert!(matches!(v, Verdict::Success(root) if root == vec![1u8; 4]));
    assert!(is_invalid(verify_chain(1, &[1; 32], &vec![], b"testing", &options(), NOW), Invalid::RootOfTrust));
    assert!(is_invalid(verify_chain(2, &[1; 32], &chain, b"testing", &options(), NOW), Invalid::RootOfTrust));
    assert!(is_invalid(verify_chain(1, &[2; 32], &chain, b"testing", &options(), NOW), Invalid::RootOfTrust));
    let broken = vec![plain(1, &[1, 2, 3]), plain(2, &[1]), plain(7, &[2, 3, 4])];
    assert!(is_invalid(verify_chain(1, &[1; 32], &broken, b"testing", &options(), NOW), Invalid::InsufficientSigners));
}

#[test]
fn trust_is_monotonic_along_a_chain() {
    let first = vec![plain(1, &[1, 2, 3]), plain(2, &[1, 2, 3]), plain(3, &[1, 2, 3])];
    let second = vec![plain(3, &[1, 2, 3]), plain(9, &[1, 2, 4])];
    let joined = vec![plain(1, &[1, 2, 3]), plain(2, &[1, 2, 3]), plain(3, &[1, 2, 3]), plain(9, &[1, 2, 4])];
    assert!(matches!(verify_chain(1, &[1; 32], &first, b"testing", &options(), NOW), Verdict::Success(_)));
    let from_trusted = verify_chain(3, &[3; 32], &second, b"testing", &options(), NOW);
    let from_root = verify_chain(1, &[1; 32], &joined, b"testing", &options(), NOW);
    assert!(matches!(from_trusted, Verdict::Success(root) if root == vec![9u8; 4]));
    assert!(matches!(from_root, Verdict::Success(root) if root == vec![9u8; 4]));
}

fn varint(n: usize) -> Vec<u8> {
    assert!(n < 128);
    vec![n as u8]
}

fn leaf_hash(prefix: &[u8], key: &[u8], value: &[u8]) -> Vec<u8> {
    let mut image = prefix.to_vec();
    image.extend(varint(key.len()));
    image.extend_from_slice(key);
    image.extend(varint(32));
    image.extend_from_slice(&Sha256::digest(value));
    Sha256::digest(&image).to_vec()
}

fn leaf(prefix: &[u8]) -> Option<LeafOp> {
    Some(LeafOp { hash: 1, prehash_key: 0, prehash_value: 1, length: 1, prefix: prefix.to_vec() })
}

fn existence(prefix: &[u8], key: &[u8], value: &[u8], path: Vec<InnerOp>) -> CommitmentProof {
    CommitmentProof::Exist(ExistenceProof {
        key: key.to_vec(),
        value: value.to_vec(),
        leaf: leaf(prefix),
        path,
    })
}

#[test]
fn membership_under_a_tendermint_tree() {
    let verifier = Ics23MembershipVerifier::new(ProofSpec::Tendermint);
    let proof = existence(&[0], b"key", b"value", vec![]);
    let root = leaf_hash(&[0], b"key", b"value");
    assert_eq!(verifier.verify(&proof, b"key", b"value"), Ok(root.clone()));
    assert_eq!(verifier.verify_under(&root, &proof, b"key", b"value"), Ok(root.clone()));
    assert_eq!(
        verifier.verify_under(&[0; 32], &proof, b"key", b"value"),
        Err(ProofError::VerificationFailure)
    );
    let sibling = [0x11u8; 32];
    let mut prefix = vec![1u8];
    prefix.extend_from_slice(&sibling);
    let step = InnerOp { hash: 1, prefix: prefix.clone(), suffix: vec![] };
    let as_right_child = existence(&[0], b"key", b"value", vec![step]);
    let mut image = prefix;
    image.extend_from_slice(&root);
    let parent = Sha256::digest(&image).to_vec();
    assert_eq!(verifier.verify(&as_right_child, b"key", b"value"), Ok(parent.clone()));
    let step = InnerOp { hash: 1, prefix: vec![1u8], suffix: sibling.to_vec() };
    let as_left_child = existence(&[0], b"key", b"value", vec![step]);
    let mut image = vec![1u8];
    image.extend_from_slice(&root);
    image.extend_from_slice(&sibling);
    let other_parent = Sha256::digest(&image).to_vec();
    assert_ne!(parent, other_parent);
    assert_eq!(verifier.verify(&as_left_child, b"key", b"value"), Ok(other_parent));
    let step = InnerOp { hash: 1, prefix: vec![], suffix: sibling.to_vec() };
    let no_prefix = existence(&[0], b"key", b"value", vec![step]);
    assert_eq!(verifier.verify(&no_prefix, b"key", b"value"), Err(ProofError::VerificationFailure));
}

#[test]
fn membership_under_an_iavl_tree() {
    let verifier = Ics23MembershipVerifier::new(ProofSpec::Iavl);
    let prefix = [0u8, 2, 2];
    let proof = existence(&prefix, b"key", b"value", vec![]);
    assert_eq!(verifier.verify(&proof, b"key", b"value"), Ok(leaf_hash(&prefix, b"key", b"value")));
    let bad_prefix = existence(&[0, 2], b"key", b"value", vec![]);
    assert_eq!(verifier.verify(&bad_prefix, b"key", b"value"), Err(ProofError::VerificationFailure));
    let tendermint = Ics23MembershipVerifier::new(ProofSpec::Tendermint);
    assert!(tendermint.verify(&bad_prefix, b"key", b"value").is_ok());
}

#[test]
fn proofs_that_show_something_else_are_refused() {
    let verifier = Ics23MembershipVerifier::new(ProofSpec::Tendermint);
    let proof = existence(&[0], b"key", b"value", vec![]);
    assert_eq!(verifier.verify(&proof, b"key", b""), Err(ProofError::EmptyVerifiedValue));
    assert_eq!(verifier.verify(&proof, b"key", b"other"), Err(ProofError::VerificationFailure));
    assert_eq!(verifier.verify(&proof, b"other", b"value"), Err(ProofError::VerificationFailure));
    assert_eq!(verifier.verify(&CommitmentProof::Nonexist, b"key", b"value"), Err(ProofError::InvalidMerkleProof));
    assert_eq!(verifier.verify(&CommitmentProof::Batch, b"key", b"value"), Err(ProofError::InvalidMerkleProof));
    assert_eq!(verifier.verify(&CommitmentProof::Compressed, b"key", b"value"), Err(ProofError::InvalidMerkleProof));
    assert_eq!(verifier.verify(&CommitmentProof::Missing, b"key", b"value"), Err(ProofError::InvalidMerkleProof));
    let no_leaf = CommitmentProof::Exist(ExistenceProof {
        key: b"key".to_vec(),
        value: b"value".to_vec(),
        leaf: None,
        path: vec![],
    });
    assert_eq!(verifier.verify(&no_leaf, b"key", b"value"), Err(ProofError::InvalidMerkleProof));
    let wrong_hash = CommitmentProof::Exist(ExistenceProof {
        key: b"key".to_vec(),
        value: b"value".to_vec(),
        leaf: Some(LeafOp { hash: 2, prehash_key: 0, prehash_value: 1, length: 1, prefix: vec![0] }),
        path: vec![],
    });
    assert_eq!(verifier.verify(&wrong_hash, b"key", b"value"), Err(ProofError::VerificationFailure));
}

#[test]
fn verdicts_follow_from_what_was_computed() {
    assert_eq!(conclude(None, true), Err(ProofError::InvalidMerkleProof));
    assert_eq!(conclude(None, false), Err(ProofError::InvalidMerkleProof));
    assert_eq!(conclude(Some(vec![1]), false), Err(ProofError::VerificationFailure));
    assert_eq!(conclude(Some(vec![1]), true), Ok(vec![1]));
}

#[test]
fn publication_needs_both_proofs() {
    let root = leaf_hash(&[0], b"key", b"value");
    let mut target = plain(2, &[1, 2, 3]);
    target.header.app_hash = root.clone();
    let opts = LightClientOpts {
        chain_id: b"testing".to_vec(),
        trusted_height: 1,
        trusted_hash: [1; 32],
        options: options(),
    };
    let pop = ProofOfPublication {
        light_client_proof: vec![plain(1, &[1, 2, 3]), target],
        merkle_proof: existence(&[0], b"key", b"value", vec![]),
        storage_key: b"key".to_vec(),
        value: b"value".to_vec(),
        msg: (),
    };
    assert_eq!(pop.verify(&opts, ProofSpec::Tendermint, b"key", NOW), Ok(b"value".to_vec()));
    assert_eq!(pop.verify(&opts, ProofSpec::Tendermint, b"other", NOW), Err(Error::StorageKey));
    assert_eq!(
        pop.verify(&opts, ProofSpec::Iavl, b"key", NOW),
        Err(Error::MerkleProof(ProofError::VerificationFailure))
    );
    assert_eq!(
        pop.verify(&opts, ProofSpec::Tendermint, b"key", 5_000_000),
        Err(Error::LightClient(LightClientError::Invalid(Invalid::Expired)))
    );
    let unrooted = ProofOfPublication {
        light_client_proof: vec![plain(1, &[1, 2, 3]), plain(2, &[1, 2, 3])],
        merkle_proof: existence(&[0], b"key", b"value", vec![]),
        storage_key: b"key".to_vec(),
        value: b"value".to_vec(),
        msg: (),
    };
    assert_eq!(
        unrooted.verify(&opts, ProofSpec::Tendermint, b"key", NOW),
        Err(Error::MerkleProof(ProofError::VerificationFailure))
    );
}

#[test]
fn the_trusted_block_must_hand_on_the_validators_it_announces() {
    let mut root = plain(1, &[1, 2, 3]);
    root.next_validators.validators[0].power = 11;
    let chain = vec![root, plain(2, &[1, 2, 3])];
    assert!(is_invalid(verify_chain(1, &[1; 32], &chain, b"testing", &options(), NOW), Invalid::ValidatorSet));
    let mut root = plain(1, &[1, 2, 3]);
    root.next_validators.validators[0].power = 11;
    assert!(is_invalid(verify_chain(1, &[1; 32], &vec![root], b"testing", &options(), NOW), Invalid::ValidatorSet));
    let mut other = plain(1, &[1, 2, 3]);
    other.next_validators.validators[0].power = 11;
    assert!(is_invalid(verify_chain(2, &[1; 32], &vec![other], b"testing", &options(), NOW), Invalid::RootOfTrust));
}
