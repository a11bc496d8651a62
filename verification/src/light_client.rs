//! A stateless skipping verifier for Tendermint-style headers. Hashing headers and
//! encoding votes is the host's work. What is decided here is whether the
//! validators are those that a header names, which entries of a commit count,
//! under which validator's key each signature is checked, and whether a target
//! block is to be trusted from a trusted one.
//!
//! The rules are this protocol's own and are stated here in full. They are not
//! in every point those of `tendermint-light-client-verifier`: for the block at
//! the next height the set that the trusted block announces is tallied, and the
//! trusting period is measured on the target's header.

use tendermint::crypto::default::signature::Verifier as TmVerifier;
use tendermint::crypto::signature::Verifier;
use vstd::prelude::*;
use crate::bytes::{bytes_eq, copy_bytes};
use crate::crypto::{sha256, sha256_spec};
use crate::state::{same_32, Height};

verus! {

/// A validator: its address, its public key and its voting power.
pub struct Validator {
    pub address: Vec<u8>,
    pub pub_key: Vec<u8>,
    pub power: u64,
}

/// A validator as values.
pub struct ValidatorView {
    pub address: Seq<u8>,
    pub pub_key: Seq<u8>,
    pub power: u64,
}

impl View for Validator {
    type V = ValidatorView;

    open spec fn view(&self) -> ValidatorView {
        ValidatorView { address: self.address@, pub_key: self.pub_key@, power: self.power }
    }
}

/// A validator set.
pub struct ValidatorSet {
    pub validators: Vec<Validator>,
}

/// A validator set as values.
pub struct ValidatorSetView {
    pub validators: Seq<ValidatorView>,
}

impl View for ValidatorSet {
    type V = ValidatorSetView;

    open spec fn view(&self) -> ValidatorSetView {
        ValidatorSetView {
            validators: Seq::new(self.validators@.len(), |i: int| self.validators@[i]@),
        }
    }
}

/// The hash of a validator set, as headers name it; none where a validator's key
/// is no Ed25519 key or its power is more than a vote's power can be.
pub uninterp spec fn validators_hash_spec(validators: Seq<ValidatorView>) -> Option<Seq<u8>>;

/// The most voting power that a validator set may hold in all: an eighth of what
/// 63 bits can say.
pub const MAX_TOTAL_POWER: u64 = 1152921504606846975;

/// Makes a `tendermint::validator::Info` of each validator's key and power, with
/// `tendermint::PublicKey::from_raw_ed25519` and `tendermint::vote::Power`, and
/// calls `hash` on the `tendermint::validator::Set` of them. Trusted: the hash
/// depends on the validators alone; `None` stands for a key or a power that
/// cannot be read. A set of more power than a set may hold is left out: the
/// crate does not return on it.
#[verifier::external_body]
fn hash_validators(validators: &Vec<Validator>) -> (r: Option<Vec<u8>>)
    requires
        total_power(view_all(validators@)) <= MAX_TOTAL_POWER,
    ensures
        match r {
            Some(hash) => validators_hash_spec(view_all(validators@)) == Some(hash@),
            None => validators_hash_spec(view_all(validators@)) is None,
        },
{
    let infos = validators.iter().map(|v| Some(tendermint::validator::Info::new(
        tendermint::PublicKey::from_raw_ed25519(&v.pub_key)?,
        tendermint::vote::Power::try_from(v.power).ok()?,
    ))).collect::<Option<Vec<_>>>()?;
    Some(tendermint::validator::Set::without_proposer(infos).hash().as_bytes().to_vec())
}

/// Validators as values.
pub open spec fn view_all(validators: Seq<Validator>) -> Seq<ValidatorView> {
    Seq::new(validators.len(), |i: int| validators[i]@)
}

/// Whether `hash` is the hash of the set, which holds no more power than a set
/// may.
pub open spec fn hashes_to(set: ValidatorSetView, hash: Seq<u8>) -> bool {
    total_power(set.validators) <= MAX_TOTAL_POWER && validators_hash_spec(set.validators)
        == Some(hash)
}

/// Whether the validators hold no more power in all than a set may.
fn power_is_within(validators: &Vec<Validator>) -> (r: bool)
    ensures
        r == (total_power(view_all(validators@)) <= MAX_TOTAL_POWER),
{
    let ghost views = view_all(validators@);
    let mut total: u64 = 0;
    let mut i: usize = 0;
    proof {
        assert(views.subrange(0, 0) =~= Seq::<ValidatorView>::empty());
    }
    while i < validators.len()
        invariant
            i <= validators.len(),
            views == view_all(validators@),
            total == total_power(views.subrange(0, i as int)),
            total <= MAX_TOTAL_POWER,
        decreases validators.len() - i,
    {
        proof {
            let next = views.subrange(0, i + 1);
            assert(next.drop_last() =~= views.subrange(0, i as int));
            assert(next.last() == validators@[i as int]@);
        }
        if validators[i].power > MAX_TOTAL_POWER - total {
            proof {
                lemma_total_grows(views, i + 1);
            }
            return false;
        }
        total = total + validators[i].power;
        i += 1;
    }
    proof {
        assert(views.subrange(0, i as int) =~= views);
    }
    true
}

/// Whether `hash` is the hash of the set.
fn has_hash(set: &ValidatorSet, hash: &crate::state::Hash) -> (r: bool)
    ensures
        r == hashes_to(set@, hash@),
{
    proof {
        assert(view_all(set.validators@) =~= set@.validators);
    }
    if !power_is_within(&set.validators) {
        return false;
    }
    match hash_validators(&set.validators) {
        Some(own) => bytes_eq(own.as_slice(), hash.as_slice()),
        None => false,
    }
}

/// What a validator's entry in a commit says of its vote.
#[derive(Clone, Copy, Debug, PartialEq, Eq, Structural)]
pub enum BlockIdFlag {
    /// The validator did not vote.
    Absent,
    /// The validator voted for the block.
    Commit,
    /// The validator voted for no block.
    Nil,
}

/// A validator's entry in a commit: what it voted, the address that signed, the
/// bytes of the vote that were signed, and the signature.
pub struct CommitSig {
    pub flag: BlockIdFlag,
    pub validator_address: Vec<u8>,
    pub sign_bytes: Vec<u8>,
    pub signature: Vec<u8>,
}

/// An entry of a commit as values.
pub struct CommitSigView {
    pub flag: BlockIdFlag,
    pub validator_address: Seq<u8>,
    pub sign_bytes: Seq<u8>,
    pub signature: Seq<u8>,
}

impl View for CommitSig {
    type V = CommitSigView;

    open spec fn view(&self) -> CommitSigView {
        CommitSigView {
            flag: self.flag,
            validator_address: self.validator_address@,
            sign_bytes: self.sign_bytes@,
            signature: self.signature@,
        }
    }
}

/// Whether `signature` is an Ed25519 signature of `message` that verifies under
/// the public key `pub_key`.
pub uninterp spec fn signature_spec(pub_key: Seq<u8>, message: Seq<u8>, signature: Seq<u8>) -> bool;

/// Reads the key with `tendermint::PublicKey::from_raw_ed25519` and the signature
/// with `tendermint::Signature::try_from`, and calls `verify` of
/// `tendermint::crypto::default::signature::Verifier`. Trusted: whether the
/// signature verifies depends on the three byte strings alone; a key or a
/// signature that cannot be read verifies nothing.
#[verifier::external_body]
fn check_signature(pub_key: &[u8], message: &[u8], signature: &[u8]) -> (r: bool)
    ensures
        r == signature_spec(pub_key@, message@, signature@),
{
    match (tendermint::PublicKey::from_raw_ed25519(pub_key), tendermint::Signature::try_from(signature)) {
        (Some(key), Ok(sig)) => TmVerifier::verify(key, message, &sig).is_ok(),
        _ => false,
    }
}

/// The commit of a block: the block it is for and its validators' entries.
pub struct Commit {
    pub height: Height,
    pub block_id_hash: crate::state::Hash,
    pub signatures: Vec<CommitSig>,
}

/// A commit as values.
pub struct CommitView {
    pub height: Height,
    pub block_id_hash: Seq<u8>,
    pub signatures: Seq<CommitSigView>,
}

impl View for Commit {
    type V = CommitView;

    open spec fn view(&self) -> CommitView {
        CommitView {
            height: self.height,
            block_id_hash: self.block_id_hash@,
            signatures: Seq::new(self.signatures@.len(), |i: int| self.signatures@[i]@),
        }
    }
}

/// What the verifier reads of a header, with the hash that the host computed of
/// the whole header. Times are seconds since the epoch.
pub struct Header {
    pub chain_id: Vec<u8>,
    pub height: Height,
    pub time: u64,
    pub app_hash: Vec<u8>,
    pub validators_hash: crate::state::Hash,
    pub next_validators_hash: crate::state::Hash,
    pub hash: crate::state::Hash,
}

/// A header as values.
pub struct HeaderView {
    pub chain_id: Seq<u8>,
    pub height: Height,
    pub time: u64,
    pub app_hash: Seq<u8>,
    pub validators_hash: Seq<u8>,
    pub next_validators_hash: Seq<u8>,
    pub hash: Seq<u8>,
}

impl View for Header {
    type V = HeaderView;

    open spec fn view(&self) -> HeaderView {
        HeaderView {
            chain_id: self.chain_id@,
            height: self.height,
            time: self.time,
            app_hash: self.app_hash@,
            validators_hash: self.validators_hash@,
            next_validators_hash: self.next_validators_hash@,
            hash: self.hash@,
        }
    }
}

/// A header with its commit and the validator sets of its height and the next.
pub struct LightBlock {
    pub header: Header,
    pub commit: Commit,
    pub validators: ValidatorSet,
    pub next_validators: ValidatorSet,
}

/// A light block as values.
pub struct LightBlockView {
    pub header: HeaderView,
    pub commit: CommitView,
    pub validators: ValidatorSetView,
    pub next_validators: ValidatorSetView,
}

impl View for LightBlock {
    type V = LightBlockView;

    open spec fn view(&self) -> LightBlockView {
        LightBlockView {
            header: self.header@,
            commit: self.commit@,
            validators: self.validators@,
            next_validators: self.next_validators@,
        }
    }
}

/// A fraction of the voting power that must have signed.
#[derive(Clone, Copy, Debug, PartialEq, Eq, Structural)]
pub struct TrustThreshold {
    pub numerator: u64,
    pub denominator: u64,
}

impl TrustThreshold {
    /// A threshold is a fraction from one third up to one.
    pub open spec fn is_valid(numerator: u64, denominator: u64) -> bool {
        denominator > 0 && numerator <= denominator && 3 * numerator >= denominator
    }

    /// Two thirds.
    pub fn two_thirds() -> (r: TrustThreshold)
        ensures
            r == (TrustThreshold { numerator: 2, denominator: 3 }),
    {
        TrustThreshold { numerator: 2, denominator: 3 }
    }

    /// The threshold `numerator / denominator`, if that is a fraction from one third
    /// up to one.
    pub fn new(numerator: u64, denominator: u64) -> (r: Option<TrustThreshold>)
        ensures
            r == (if Self::is_valid(numerator, denominator) {
                Some(TrustThreshold { numerator, denominator })
            } else {
                None
            }),
    {
        if denominator > 0 && numerator <= denominator && 3 * (numerator as u128) >= (
        denominator as u128) {
            Some(TrustThreshold { numerator, denominator })
        } else {
            None
        }
    }
}

/// The verifier's settings. Periods are in seconds.
#[derive(Clone, Copy, Debug, PartialEq, Eq, Structural)]
pub struct Options {
    pub trust_threshold: TrustThreshold,
    pub trusting_period: u64,
    pub clock_drift: u64,
    pub max_block_lag: u64,
}

/// Why a target block is invalid.
#[derive(Clone, Copy, Debug, PartialEq, Eq, Structural)]
pub enum Invalid {
    /// The header is of another chain.
    ChainId,
    /// The header is not later than the trusted block.
    Height,
    /// The header's time is before the trusted block's, beyond the drift.
    TimeBeforeTrusted,
    /// The header's time is in the future, beyond the drift.
    TimeInFuture,
    /// The header is older than the trusting period.
    Expired,
    /// The commit is for another block than the header.
    HeaderHash,
    /// The commit is for another height than the header.
    CommitHeight,
    /// A validator set is not the one that the header names.
    ValidatorSet,
    /// The validators of the next height are not those that the trusted block
    /// announced.
    NextValidatorSet,
    /// A validator set names an address twice, or holds more power than 64 bits
    /// can say.
    MalformedValidatorSet,
    /// No more than two thirds of the block's validators signed.
    InsufficientSigners,
    /// The proof holds no block, or starts at another block than the trusted one.
    RootOfTrust,
}

/// The outcome of verification, as values.
pub enum VerdictView {
    /// The target is trusted; its application state has this root.
    Success(Seq<u8>),
    /// Too little of the trusted validators' power signed the target.
    NotEnoughTrust,
    /// The target breaks a rule.
    Invalid(Invalid),
}

/// The outcome of verification.
pub enum Verdict {
    /// The target is trusted; its application state has this root.
    Success(Vec<u8>),
    /// Too little of the trusted validators' power signed the target.
    NotEnoughTrust,
    /// The target breaks a rule.
    Invalid(Invalid),
}

impl View for Verdict {
    type V = VerdictView;

    open spec fn view(&self) -> VerdictView {
        match *self {
            Verdict::Success(root) => VerdictView::Success(root@),
            Verdict::NotEnoughTrust => VerdictView::NotEnoughTrust,
            Verdict::Invalid(why) => VerdictView::Invalid(why),
        }
    }
}

/// Whether an entry of a commit counts for `validator`: it is a vote for the
/// block, under the validator's address, with a signature that verifies under
/// the validator's key.
pub open spec fn counts_for(entry: CommitSigView, validator: ValidatorView) -> bool {
    &&& entry.flag == BlockIdFlag::Commit
    &&& entry.validator_address == validator.address
    &&& signature_spec(validator.pub_key, entry.sign_bytes, entry.signature)
}

/// Whether an entry that counts for `validator` is among `signatures`.
pub open spec fn signed_by(signatures: Seq<CommitSigView>, validator: ValidatorView) -> bool {
    exists|i: int| 0 <= i < signatures.len() && counts_for(#[trigger] signatures[i], validator)
}

/// The voting power of a list of validators.
pub open spec fn total_power(validators: Seq<ValidatorView>) -> nat
    decreases validators.len(),
{
    if validators.len() == 0 {
        0
    } else {
        total_power(validators.drop_last()) + validators.last().power as nat
    }
}

/// The voting power of those validators of a list that signed.
pub open spec fn signed_power(validators: Seq<ValidatorView>, signatures: Seq<CommitSigView>) -> nat
    decreases validators.len(),
{
    if validators.len() == 0 {
        0
    } else {
        signed_power(validators.drop_last(), signatures) + if signed_by(
            signatures,
            validators.last(),
        ) {
            validators.last().power as nat
        } else {
            0
        }
    }
}

/// Whether no address occurs twice in a list of validators.
pub open spec fn distinct_addresses(validators: Seq<ValidatorView>) -> bool {
    forall|i: int, j: int|
        0 <= i < j < validators.len() ==> (#[trigger] validators[i]).address != (
        #[trigger] validators[j]).address
}

/// Whether a validator's address is that of its key: the first twenty bytes of
/// the key's SHA-256 digest.
pub open spec fn has_own_address(validator: ValidatorView) -> bool {
    &&& validator.address.len() == 20
    &&& forall|i: int|
        0 <= i < 20 ==> #[trigger] validator.address[i] == sha256_spec(validator.pub_key)[i]
}

/// Whether each validator of a list has the address of its key.
pub open spec fn own_addresses(validators: Seq<ValidatorView>) -> bool {
    forall|i: int| 0 <= i < validators.len() ==> has_own_address(#[trigger] validators[i])
}

/// Whether a validator set can be tallied: each address is that of its key, no
/// address occurs twice, and the total power is one that 64 bits can say.
pub open spec fn tallies(set: ValidatorSetView) -> bool {
    own_addresses(set.validators) && distinct_addresses(set.validators) && total_power(
        set.validators,
    ) <= u64::MAX
}

/// Whether more than `numerator / denominator` of the set's power signed.
pub open spec fn more_than(
    set: ValidatorSetView,
    signatures: Seq<CommitSigView>,
    numerator: u64,
    denominator: u64,
) -> bool {
    signed_power(set.validators, signatures) * denominator > total_power(set.validators)
        * numerator
}

/// The verdict on `target`, seen from `trusted`, at the time `now`.
pub open spec fn verdict_spec(
    trusted: LightBlockView,
    target: LightBlockView,
    chain_id: Seq<u8>,
    options: Options,
    now: u64,
) -> VerdictView {
    let h = target.header;
    if h.chain_id != chain_id {
        VerdictView::Invalid(Invalid::ChainId)
    } else if h.height <= trusted.header.height {
        VerdictView::Invalid(Invalid::Height)
    } else if h.time + options.clock_drift < trusted.header.time {
        VerdictView::Invalid(Invalid::TimeBeforeTrusted)
    } else if h.time > now + options.clock_drift {
        VerdictView::Invalid(Invalid::TimeInFuture)
    } else if now - h.time > options.trusting_period {
        VerdictView::Invalid(Invalid::Expired)
    } else if h.hash != target.commit.block_id_hash {
        VerdictView::Invalid(Invalid::HeaderHash)
    } else if target.commit.height != h.height {
        VerdictView::Invalid(Invalid::CommitHeight)
    } else if !hashes_to(target.validators, h.validators_hash) || !hashes_to(
        target.next_validators,
        h.next_validators_hash,
    ) {
        VerdictView::Invalid(Invalid::ValidatorSet)
    } else if !tallies(target.validators) || !tallies(trusted.next_validators) {
        VerdictView::Invalid(Invalid::MalformedValidatorSet)
    } else if h.height == trusted.header.height + 1 {
        if h.validators_hash != trusted.header.next_validators_hash {
            VerdictView::Invalid(Invalid::NextValidatorSet)
        } else if !more_than(trusted.next_validators, target.commit.signatures, 2, 3) {
            VerdictView::Invalid(Invalid::InsufficientSigners)
        } else {
            VerdictView::Success(h.app_hash)
        }
    } else {
        if !more_than(
            trusted.next_validators,
            target.commit.signatures,
            options.trust_threshold.numerator,
            options.trust_threshold.denominator,
        ) {
            VerdictView::NotEnoughTrust
        } else if !more_than(target.validators, target.commit.signatures, 2, 3) {
            VerdictView::Invalid(Invalid::InsufficientSigners)
        } else {
            VerdictView::Success(h.app_hash)
        }
    }
}

/// The verdict on the first block of a proof: it must be the trusted block, and
/// the validators that it hands on for the next height must be those that its
/// header announces.
pub open spec fn root_spec(
    block: LightBlockView,
    trusted_height: Height,
    trusted_hash: Seq<u8>,
) -> VerdictView {
    if !(block.header.height == trusted_height && block.header.hash == trusted_hash) {
        VerdictView::Invalid(Invalid::RootOfTrust)
    } else if !hashes_to(block.next_validators, block.header.next_validators_hash) {
        VerdictView::Invalid(Invalid::ValidatorSet)
    } else {
        VerdictView::Success(block.header.app_hash)
    }
}

/// The verdict on a proof: a list of blocks that starts at the trusted block, each
/// block after it verified from the block before. The root of the last block's
/// application state is what a proof that passes gives.
pub open spec fn chain_spec(
    trusted_height: Height,
    trusted_hash: Seq<u8>,
    blocks: Seq<LightBlockView>,
    chain_id: Seq<u8>,
    options: Options,
    now: u64,
) -> VerdictView
    decreases blocks.len(),
{
    if blocks.len() == 0 {
        VerdictView::Invalid(Invalid::RootOfTrust)
    } else if blocks.len() == 1 {
        root_spec(blocks[0], trusted_height, trusted_hash)
    } else {
        match chain_spec(trusted_height, trusted_hash, blocks.drop_last(), chain_id, options, now) {
            VerdictView::Success(_) => verdict_spec(
                blocks[blocks.len() - 2],
                blocks.last(),
                chain_id,
                options,
                now,
            ),
            other => other,
        }
    }
}

/// The views of a list of blocks.
pub open spec fn block_views(blocks: Seq<LightBlock>) -> Seq<LightBlockView> {
    Seq::new(blocks.len(), |i: int| blocks[i]@)
}

/// A proof that passes still passes when a block is added that verifies from its
/// last block.
pub proof fn lemma_chain_extends(
    trusted_height: Height,
    trusted_hash: Seq<u8>,
    blocks: Seq<LightBlockView>,
    target: LightBlockView,
    chain_id: Seq<u8>,
    options: Options,
    now: u64,
)
    requires
        chain_spec(trusted_height, trusted_hash, blocks, chain_id, options, now) is Success,
    ensures
        chain_spec(trusted_height, trusted_hash, blocks.push(target), chain_id, options, now)
            == verdict_spec(blocks.last(), target, chain_id, options, now),
{
    let longer = blocks.push(target);
    assert(longer.drop_last() =~= blocks);
    assert(longer[longer.len() - 2] == blocks.last());
}

/// Trust is monotonic: where a target is accepted from a trusted block, it is
/// accepted from every root of trust further back from which a proof leads to
/// that trusted block. `first` is the proof from the earlier root to the trusted
/// block; `second` the proof from the trusted block to the target.
pub proof fn lemma_trust_is_monotonic(
    root_height: Height,
    root_hash: Seq<u8>,
    first: Seq<LightBlockView>,
    second: Seq<LightBlockView>,
    chain_id: Seq<u8>,
    options: Options,
    now: u64,
)
    requires
        chain_spec(root_height, root_hash, first, chain_id, options, now) is Success,
        second.len() > 0,
        first.last() == second[0],
        chain_spec(
            second[0].header.height,
            second[0].header.hash,
            second,
            chain_id,
            options,
            now,
        ) is Success,
    ensures
        chain_spec(root_height, root_hash, first + second.skip(1), chain_id, options, now)
            == chain_spec(
            second[0].header.height,
            second[0].header.hash,
            second,
            chain_id,
            options,
            now,
        ),
    decreases second.len(),
{
    let h = second[0].header.height;
    let x = second[0].header.hash;
    if second.len() == 1 {
        assert(first + second.skip(1) =~= first);
        // A proof that passes ends in the root of its last block.
        lemma_chain_root(root_height, root_hash, first, chain_id, options, now);
    } else {
        let shorter = second.drop_last();
        assert(shorter[0] == second[0]);
        lemma_trust_is_monotonic(root_height, root_hash, first, shorter, chain_id, options, now);
        let joined = first + second.skip(1);
        assert(joined.drop_last() =~= first + shorter.skip(1));
        assert(joined.last() == second.last());
        assert(first.len() > 0);
        if second.len() == 2 {
            assert(joined[joined.len() - 2] == first.last());
        } else {
            assert(joined[joined.len() - 2] == second[second.len() - 2]);
        }
    }
}

/// A proof that passes gives the root of its last block, and holds a block.
pub proof fn lemma_chain_root(
    trusted_height: Height,
    trusted_hash: Seq<u8>,
    blocks: Seq<LightBlockView>,
    chain_id: Seq<u8>,
    options: Options,
    now: u64,
)
    requires
        chain_spec(trusted_height, trusted_hash, blocks, chain_id, options, now) is Success,
    ensures
        blocks.len() > 0,
        chain_spec(trusted_height, trusted_hash, blocks, chain_id, options, now)
            == VerdictView::Success(blocks.last().header.app_hash),
{
}

fn has_signed(signatures: &Vec<CommitSig>, validator: &Validator) -> (r: bool)
    ensures
        r == signed_by(Seq::new(signatures@.len(), |i: int| signatures@[i]@), validator@),
{
    let ghost views = Seq::new(signatures@.len(), |i: int| signatures@[i]@);
    let mut i: usize = 0;
    while i < signatures.len()
        invariant
            i <= signatures.len(),
            views == Seq::new(signatures@.len(), |i: int| signatures@[i]@),
            forall|j: int| 0 <= j < i ==> !counts_for(#[trigger] views[j], validator@),
        decreases signatures.len() - i,
    {
        let entry = &signatures[i];
        if entry.flag == BlockIdFlag::Commit && bytes_eq(
            entry.validator_address.as_slice(),
            validator.address.as_slice(),
        ) && check_signature(
            validator.pub_key.as_slice(),
            entry.sign_bytes.as_slice(),
            entry.signature.as_slice(),
        ) {
            proof {
                assert(counts_for(views[i as int], validator@));
            }
            return true;
        }
        i += 1;
    }
    false
}

fn has_own_addresses(validators: &Vec<Validator>) -> (r: bool)
    ensures
        r == own_addresses(Seq::new(validators@.len(), |i: int| validators@[i]@)),
{
    let ghost views = Seq::new(validators@.len(), |i: int| validators@[i]@);
    let mut j: usize = 0;
    while j < validators.len()
        invariant
            j <= validators.len(),
            views == Seq::new(validators@.len(), |i: int| validators@[i]@),
            forall|a: int| 0 <= a < j ==> has_own_address(#[trigger] views[a]),
        decreases validators.len() - j,
    {
        let v = &validators[j];
        if v.address.len() != 20 {
            proof {
                assert(!has_own_address(views[j as int]));
            }
            return false;
        }
        let digest = sha256(v.pub_key.as_slice());
        let mut i: usize = 0;
        while i < 20
            invariant
                i <= 20,
                j < validators.len(),
                v == &validators[j as int],
                v.address@.len() == 20,
                digest@ == sha256_spec(v.pub_key@),
                views == Seq::new(validators@.len(), |i: int| validators@[i]@),
                forall|a: int| 0 <= a < i ==> v.address@[a] == digest@[a],
            decreases 20 - i,
        {
            if v.address[i] != digest[i] {
                proof {
                    assert(views[j as int].address[i as int] != sha256_spec(
                        views[j as int].pub_key,
                    )[i as int]);
                    assert(!has_own_address(views[j as int]));
                }
                return false;
            }
            i += 1;
        }
        proof {
            assert(has_own_address(views[j as int]));
        }
        j += 1;
    }
    true
}

fn has_distinct_addresses(validators: &Vec<Validator>) -> (r: bool)
    ensures
        r == distinct_addresses(Seq::new(validators@.len(), |i: int| validators@[i]@)),
{
    let ghost views = Seq::new(validators@.len(), |i: int| validators@[i]@);
    let mut j: usize = 0;
    while j < validators.len()
        invariant
            j <= validators.len(),
            views == Seq::new(validators@.len(), |i: int| validators@[i]@),
            forall|a: int, b: int|
                0 <= a < b < j ==> (#[trigger] views[a]).address != (#[trigger] views[b]).address,
        decreases validators.len() - j,
    {
        let mut i: usize = 0;
        while i < j
            invariant
                i <= j,
                j < validators.len(),
                views == Seq::new(validators@.len(), |i: int| validators@[i]@),
                forall|a: int|
                    0 <= a < i ==> (#[trigger] views[a]).address != views[j as int].address,
            decreases j - i,
        {
            if bytes_eq(validators[i].address.as_slice(), validators[j].address.as_slice()) {
                proof {
                    assert(views[i as int].address == views[j as int].address);
                }
                return false;
            }
            i += 1;
        }
        j += 1;
    }
    true
}

/// The set's total power and the power of those of it that signed, if the set can
/// be tallied.
fn tally(set: &ValidatorSet, signatures: &Vec<CommitSig>) -> (r: Option<(u64, u64)>)
    ensures
        r.is_some() == tallies(set@),
        r matches Some(t) ==> t.0 == total_power(set@.validators) && t.1 == signed_power(
            set@.validators,
            Seq::new(signatures@.len(), |i: int| signatures@[i]@),
        ),
{
    if !has_own_addresses(&set.validators) || !has_distinct_addresses(&set.validators) {
        return None;
    }
    let ghost views = set@.validators;
    let ghost sigs = Seq::new(signatures@.len(), |i: int| signatures@[i]@);
    let mut total: u64 = 0;
    let mut signed: u64 = 0;
    let mut i: usize = 0;
    proof {
        assert(views.subrange(0, 0) =~= Seq::<ValidatorView>::empty());
    }
    while i < set.validators.len()
        invariant
            i <= set.validators.len(),
            views == set@.validators,
            sigs == Seq::new(signatures@.len(), |i: int| signatures@[i]@),
            total == total_power(views.subrange(0, i as int)),
            signed == signed_power(views.subrange(0, i as int), sigs),
            signed <= total,
        decreases set.validators.len() - i,
    {
        let v = &set.validators[i];
        proof {
            let next = views.subrange(0, i + 1);
            assert(next.drop_last() =~= views.subrange(0, i as int));
            assert(next.last() == v@);
        }
        total = match total.checked_add(v.power) {
            Some(t) => t,
            None => {
                proof {
                    lemma_total_grows(views, i + 1);
                }
                return None;
            },
        };
        if has_signed(signatures, v) {
            signed = signed + v.power;
        }
        i += 1;
    }
    proof {
        assert(views.subrange(0, i as int) =~= views);
    }
    Some((total, signed))
}

/// A list of validators holds at least the power of each of its prefixes.
proof fn lemma_total_grows(validators: Seq<ValidatorView>, k: int)
    requires
        0 <= k <= validators.len(),
    ensures
        total_power(validators.subrange(0, k)) <= total_power(validators),
    decreases validators.len() - k,
{
    if k == validators.len() {
        assert(validators.subrange(0, k) =~= validators);
    } else {
        let next = validators.subrange(0, k + 1);
        assert(next.drop_last() =~= validators.subrange(0, k));
        lemma_total_grows(validators, k + 1);
    }
}

fn exceeds(total: u64, signed: u64, numerator: u64, denominator: u64) -> (r: bool)
    ensures
        r == (signed * denominator > total * numerator),
{
    assert(signed * denominator <= u64::MAX * u64::MAX) by (nonlinear_arith)
        requires
            signed <= u64::MAX,
            denominator <= u64::MAX,
    ;
    assert(total * numerator <= u64::MAX * u64::MAX) by (nonlinear_arith)
        requires
            total <= u64::MAX,
            numerator <= u64::MAX,
    ;
    (signed as u128) * (denominator as u128) > (total as u128) * (numerator as u128)
}

/// Decides whether `target` is to be trusted from `trusted` at the time `now`.
pub fn verify(
    trusted: &LightBlock,
    target: &LightBlock,
    chain_id: &[u8],
    options: &Options,
    now: u64,
) -> (r: Verdict)
    ensures
        r@ == verdict_spec(trusted@, target@, chain_id@, *options, now),
{
    let h = &target.header;
    if !bytes_eq(h.chain_id.as_slice(), chain_id) {
        return Verdict::Invalid(Invalid::ChainId);
    }
    if h.height <= trusted.header.height {
        return Verdict::Invalid(Invalid::Height);
    }
    if (h.time as u128) + (options.clock_drift as u128) < (trusted.header.time as u128) {
        return Verdict::Invalid(Invalid::TimeBeforeTrusted);
    }
    if (h.time as u128) > (now as u128) + (options.clock_drift as u128) {
        return Verdict::Invalid(Invalid::TimeInFuture);
    }
    if now > h.time && now - h.time > options.trusting_period {
        return Verdict::Invalid(Invalid::Expired);
    }
    if !same_32(&h.hash, &target.commit.block_id_hash) {
        return Verdict::Invalid(Invalid::HeaderHash);
    }
    if target.commit.height != h.height {
        return Verdict::Invalid(Invalid::CommitHeight);
    }
    if !has_hash(&target.validators, &h.validators_hash) || !has_hash(
        &target.next_validators,
        &h.next_validators_hash,
    ) {
        return Verdict::Invalid(Invalid::ValidatorSet);
    }
    let own = tally(&target.validators, &target.commit.signatures);
    let theirs = tally(&trusted.next_validators, &target.commit.signatures);
    let (own_total, own_signed, their_total, their_signed) = match (own, theirs) {
        (Some(o), Some(t)) => (o.0, o.1, t.0, t.1),
        _ => {
            return Verdict::Invalid(Invalid::MalformedValidatorSet);
        },
    };
    if h.height - trusted.header.height == 1 {
        if !same_32(&h.validators_hash, &trusted.header.next_validators_hash) {
            return Verdict::Invalid(Invalid::NextValidatorSet);
        }
        if !exceeds(their_total, their_signed, 2, 3) {
            return Verdict::Invalid(Invalid::InsufficientSigners);
        }
        Verdict::Success(copy_bytes(h.app_hash.as_slice()))
    } else {
        if !exceeds(
            their_total,
            their_signed,
            options.trust_threshold.numerator,
            options.trust_threshold.denominator,
        ) {
            return Verdict::NotEnoughTrust;
        }
        if !exceeds(own_total, own_signed, 2, 3) {
            return Verdict::Invalid(Invalid::InsufficientSigners);
        }
        Verdict::Success(copy_bytes(h.app_hash.as_slice()))
    }
}

/// Verifies a proof: the blocks from the trusted one to the target, each verified
/// from the one before it.
pub fn verify_chain(
    trusted_height: Height,
    trusted_hash: &crate::state::Hash,
    blocks: &Vec<LightBlock>,
    chain_id: &[u8],
    options: &Options,
    now: u64,
) -> (r: Verdict)
    ensures
        r@ == chain_spec(
            trusted_height,
            trusted_hash@,
            block_views(blocks@),
            chain_id@,
            *options,
            now,
        ),
{
    let ghost views = block_views(blocks@);
    if blocks.len() == 0 {
        return Verdict::Invalid(Invalid::RootOfTrust);
    }
    if blocks[0].header.height != trusted_height || !same_32(&blocks[0].header.hash, trusted_hash) {
        proof {
            lemma_root_must_match(trusted_height, trusted_hash@, views, chain_id@, *options, now);
        }
        return Verdict::Invalid(Invalid::RootOfTrust);
    }
    if !has_hash(&blocks[0].next_validators, &blocks[0].header.next_validators_hash) {
        proof {
            lemma_root_must_match(trusted_height, trusted_hash@, views, chain_id@, *options, now);
        }
        return Verdict::Invalid(Invalid::ValidatorSet);
    }
    let mut root: Vec<u8> = copy_bytes(blocks[0].header.app_hash.as_slice());
    let mut i: usize = 1;
    proof {
        assert(views.subrange(0, 1) =~= seq![views[0]]);
    }
    while i < blocks.len()
        invariant
            1 <= i <= blocks.len(),
            views == block_views(blocks@),
            chain_spec(trusted_height, trusted_hash@, views.subrange(0, i as int), chain_id@, *options, now)
                == VerdictView::Success(root@),
        decreases blocks.len() - i,
    {
        proof {
            let done = views.subrange(0, i as int);
            assert(views.subrange(0, i + 1) =~= done.push(views[i as int]));
            assert(done.last() == views[i - 1]);
            lemma_chain_extends(
                trusted_height,
                trusted_hash@,
                done,
                views[i as int],
                chain_id@,
                *options,
                now,
            );
        }
        match verify(&blocks[i - 1], &blocks[i], chain_id, options, now) {
            Verdict::Success(next) => {
                root = next;
            },
            Verdict::NotEnoughTrust => {
                proof {
                    lemma_failure_stays(trusted_height, trusted_hash@, views, chain_id@, *options, now, i + 1);
                }
                return Verdict::NotEnoughTrust;
            },
            Verdict::Invalid(why) => {
                proof {
                    lemma_failure_stays(trusted_height, trusted_hash@, views, chain_id@, *options, now, i + 1);
                }
                return Verdict::Invalid(why);
            },
        }
        i += 1;
    }
    proof {
        assert(views.subrange(0, i as int) =~= views);
    }
    Verdict::Success(root)
}

/// A proof whose first block is refused fails for that reason, whatever follows.
proof fn lemma_root_must_match(
    trusted_height: Height,
    trusted_hash: Seq<u8>,
    blocks: Seq<LightBlockView>,
    chain_id: Seq<u8>,
    options: Options,
    now: u64,
)
    requires
        1 <= blocks.len(),
        !(root_spec(blocks[0], trusted_height, trusted_hash) is Success),
    ensures
        chain_spec(trusted_height, trusted_hash, blocks, chain_id, options, now) == root_spec(
            blocks[0],
            trusted_height,
            trusted_hash,
        ),
    decreases blocks.len(),
{
    if blocks.len() > 1 {
        let shorter = blocks.drop_last();
        assert(shorter[0] == blocks[0]);
        lemma_root_must_match(trusted_height, trusted_hash, shorter, chain_id, options, now);
    }
}

/// Once a prefix of a proof fails, the proof fails in the same way.
proof fn lemma_failure_stays(
    trusted_height: Height,
    trusted_hash: Seq<u8>,
    blocks: Seq<LightBlockView>,
    chain_id: Seq<u8>,
    options: Options,
    now: u64,
    k: int,
)
    requires
        2 <= k <= blocks.len(),
        !(chain_spec(trusted_height, trusted_hash, blocks.subrange(0, k), chain_id, options, now)
            is Success),
    ensures
        chain_spec(trusted_height, trusted_hash, blocks, chain_id, options, now) == chain_spec(
            trusted_height,
            trusted_hash,
            blocks.subrange(0, k),
            chain_id,
            options,
            now,
        ),
    decreases blocks.len() - k,
{
    if k == blocks.len() {
        assert(blocks.subrange(0, k) =~= blocks);
    } else {
        let next = blocks.subrange(0, k + 1);
        assert(next.drop_last() =~= blocks.subrange(0, k));
        lemma_failure_stays(trusted_height, trusted_hash, blocks, chain_id, options, now, k + 1);
    }
}

} // verus!
