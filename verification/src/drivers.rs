//! The order of the off-chain work around the enclave: what the host does next in
//! a handshake and in an operation, given what has happened, and what each piece
//! of work is to be done with. The host performs each action and reports what
//! came of it.

use vstd::prelude::*;
use vstd::string::*;
use crate::bytes::copy_bytes;
use crate::state::Height;

verus! {

/// What the host was started with: the chain, the contract, who signs, and the
/// block that is trusted.
pub struct ChainArgs {
    pub chain_id: Vec<u8>,
    pub contract: Vec<u8>,
    pub sender: Vec<u8>,
    pub trusted_height: Height,
    pub trusted_hash: crate::state::Hash,
}

/// What the host was started with, as values.
pub struct ChainArgsView {
    pub chain_id: Seq<u8>,
    pub contract: Seq<u8>,
    pub sender: Seq<u8>,
    pub trusted_height: Height,
    pub trusted_hash: Seq<u8>,
}

impl View for ChainArgs {
    type V = ChainArgsView;

    open spec fn view(&self) -> ChainArgsView {
        ChainArgsView {
            chain_id: self.chain_id@,
            contract: self.contract@,
            sender: self.sender@,
            trusted_height: self.trusted_height,
            trusted_hash: self.trusted_hash@,
        }
    }
}

/// A transaction to submit: to which contract, on which chain, signed by whom.
#[derive(Clone, Debug, PartialEq, Eq)]
pub struct Submission {
    pub contract: Vec<u8>,
    pub chain_id: Vec<u8>,
    pub sender: Vec<u8>,
}

/// A transaction to submit, as values.
pub struct SubmissionView {
    pub contract: Seq<u8>,
    pub chain_id: Seq<u8>,
    pub sender: Seq<u8>,
}

impl View for Submission {
    type V = SubmissionView;

    open spec fn view(&self) -> SubmissionView {
        SubmissionView { contract: self.contract@, chain_id: self.chain_id@, sender: self.sender@ }
    }
}

/// A proof to ask the prover for: of which item of which contract, on which
/// chain, from which trusted block.
#[derive(Clone, Debug, PartialEq, Eq)]
pub struct ProverConfig {
    pub chain_id: Vec<u8>,
    pub contract: Vec<u8>,
    pub storage_key: Vec<u8>,
    pub trusted_height: Height,
    pub trusted_hash: crate::state::Hash,
}

/// A proof to ask the prover for, as values.
pub struct ProverConfigView {
    pub chain_id: Seq<u8>,
    pub contract: Seq<u8>,
    pub storage_key: Seq<u8>,
    pub trusted_height: Height,
    pub trusted_hash: Seq<u8>,
}

impl View for ProverConfig {
    type V = ProverConfigView;

    open spec fn view(&self) -> ProverConfigView {
        ProverConfigView {
            chain_id: self.chain_id@,
            contract: self.contract@,
            storage_key: self.storage_key@,
            trusted_height: self.trusted_height,
            trusted_hash: self.trusted_hash@,
        }
    }
}

/// The transaction that the host's arguments ask for.
pub open spec fn submission_spec(args: ChainArgsView) -> SubmissionView {
    SubmissionView { contract: args.contract, chain_id: args.chain_id, sender: args.sender }
}

/// The proof of an item that the host's arguments ask for.
pub open spec fn prover_spec(args: ChainArgsView, storage_key: Seq<u8>) -> ProverConfigView {
    ProverConfigView {
        chain_id: args.chain_id,
        contract: args.contract,
        storage_key,
        trusted_height: args.trusted_height,
        trusted_hash: args.trusted_hash,
    }
}

fn submission(args: &ChainArgs) -> (r: Submission)
    ensures
        r@ == submission_spec(args@),
{
    Submission {
        contract: copy_bytes(args.contract.as_slice()),
        chain_id: copy_bytes(args.chain_id.as_slice()),
        sender: copy_bytes(args.sender.as_slice()),
    }
}

fn prover_config(args: &ChainArgs, storage_key: &str) -> (r: ProverConfig)
    ensures
        r@ == prover_spec(args@, storage_key.spec_bytes()),
{
    ProverConfig {
        chain_id: copy_bytes(args.chain_id.as_slice()),
        contract: copy_bytes(args.contract.as_slice()),
        storage_key: copy_bytes(storage_key.as_bytes()),
        trusted_height: args.trusted_height,
        trusted_hash: args.trusted_hash,
    }
}

/// Where a handshake stands.
#[derive(Clone, Copy, Debug, PartialEq, Eq, Structural)]
pub enum HandshakeState {
    /// Nothing was done.
    Start,
    /// The enclave was asked to take up the session.
    CreatingSession,
    /// The attested `SessionCreate` is being submitted to the contract.
    SubmittingCreate,
    /// The transaction of the `SessionCreate` is awaited.
    AwaitingCreateCommit,
    /// So many new blocks are to pass before the session's storage is proved.
    WaitingBlocks(u8),
    /// The proof of the session's storage is being made.
    Proving,
    /// The enclave was asked to publish its key.
    SettingPubKey,
    /// The attested `SessionSetPubKey` is being submitted to the contract.
    SubmittingSetPubKey,
    /// The transaction of the `SessionSetPubKey` is awaited.
    AwaitingSetCommit,
    /// The committed transaction is being read for the key.
    ReadingKey,
    /// The handshake is complete.
    Done,
    /// The handshake failed.
    Failed,
}

/// What a handshake's host reports.
#[derive(Clone, Copy, Debug, PartialEq, Eq, Structural)]
pub enum HandshakeEvent {
    /// The handshake is to begin.
    Begin,
    /// The enclave answered.
    Relayed,
    /// The ledger took the transaction.
    Submitted,
    /// The transaction was committed.
    Committed,
    /// A new block was seen.
    NewBlock,
    /// The proof was made.
    Proved,
    /// The transaction's events were read; they hold the key or do not.
    KeyRead(bool),
    /// The action failed.
    Failure,
}

/// What a handshake's host is to do.
#[derive(Clone, Debug, PartialEq, Eq)]
pub enum HandshakeAction {
    /// Ask the enclave to take up the session.
    RelaySessionCreate,
    /// Submit the enclave's answer to the contract.
    SubmitTx(Submission),
    /// Wait for the transaction to be committed.
    AwaitCommit,
    /// Wait for the next new block.
    AwaitBlock,
    /// Prove the session's storage from the trusted block.
    Prove(ProverConfig),
    /// Ask the enclave to publish its key, with the proof.
    RelaySessionSetPubKey,
    /// Read the committed transaction for the key.
    ReadKey,
    /// Report the key.
    Finish,
    /// Report the failure.
    Abort,
    /// Nothing: the event does not belong here.
    Ignore,
}

/// What a handshake's host is to do, as values.
pub enum HandshakeActionView {
    RelaySessionCreate,
    SubmitTx(SubmissionView),
    AwaitCommit,
    AwaitBlock,
    Prove(ProverConfigView),
    RelaySessionSetPubKey,
    ReadKey,
    Finish,
    Abort,
    Ignore,
}

impl View for HandshakeAction {
    type V = HandshakeActionView;

    open spec fn view(&self) -> HandshakeActionView {
        match *self {
            HandshakeAction::RelaySessionCreate => HandshakeActionView::RelaySessionCreate,
            HandshakeAction::SubmitTx(s) => HandshakeActionView::SubmitTx(s@),
            HandshakeAction::AwaitCommit => HandshakeActionView::AwaitCommit,
            HandshakeAction::AwaitBlock => HandshakeActionView::AwaitBlock,
            HandshakeAction::Prove(p) => HandshakeActionView::Prove(p@),
            HandshakeAction::RelaySessionSetPubKey => HandshakeActionView::RelaySessionSetPubKey,
            HandshakeAction::ReadKey => HandshakeActionView::ReadKey,
            HandshakeAction::Finish => HandshakeActionView::Finish,
            HandshakeAction::Abort => HandshakeActionView::Abort,
            HandshakeAction::Ignore => HandshakeActionView::Ignore,
        }
    }
}

/// The step of a handshake: the state after an event, and what to do. Both
/// transactions go to the contract and the chain that the host was started with,
/// and the proof is asked for the session's item on that chain from the trusted
/// block.
pub open spec fn handshake_next(args: ChainArgsView, state: HandshakeState, event: HandshakeEvent) -> (
    HandshakeState,
    HandshakeActionView,
) {
    match (state, event) {
        (HandshakeState::Done, _) => (HandshakeState::Done, HandshakeActionView::Ignore),
        (HandshakeState::Failed, _) => (HandshakeState::Failed, HandshakeActionView::Ignore),
        (_, HandshakeEvent::Failure) => (HandshakeState::Failed, HandshakeActionView::Abort),
        (HandshakeState::Start, HandshakeEvent::Begin) => (
            HandshakeState::CreatingSession,
            HandshakeActionView::RelaySessionCreate,
        ),
        (HandshakeState::CreatingSession, HandshakeEvent::Relayed) => (
            HandshakeState::SubmittingCreate,
            HandshakeActionView::SubmitTx(submission_spec(args)),
        ),
        (HandshakeState::SubmittingCreate, HandshakeEvent::Submitted) => (
            HandshakeState::AwaitingCreateCommit,
            HandshakeActionView::AwaitCommit,
        ),
        (HandshakeState::AwaitingCreateCommit, HandshakeEvent::Committed) => (
            HandshakeState::WaitingBlocks(2),
            HandshakeActionView::AwaitBlock,
        ),
        (HandshakeState::WaitingBlocks(n), HandshakeEvent::NewBlock) => if n <= 1 {
            (
                HandshakeState::Proving,
                HandshakeActionView::Prove(prover_spec(args, "quartz_session".spec_bytes())),
            )
        } else {
            (HandshakeState::WaitingBlocks((n - 1) as u8), HandshakeActionView::AwaitBlock)
        },
        (HandshakeState::Proving, HandshakeEvent::Proved) => (
            HandshakeState::SettingPubKey,
            HandshakeActionView::RelaySessionSetPubKey,
        ),
        (HandshakeState::SettingPubKey, HandshakeEvent::Relayed) => (
            HandshakeState::SubmittingSetPubKey,
            HandshakeActionView::SubmitTx(submission_spec(args)),
        ),
        (HandshakeState::SubmittingSetPubKey, HandshakeEvent::Submitted) => (
            HandshakeState::AwaitingSetCommit,
            HandshakeActionView::AwaitCommit,
        ),
        (HandshakeState::AwaitingSetCommit, HandshakeEvent::Committed) => (
            HandshakeState::ReadingKey,
            HandshakeActionView::ReadKey,
        ),
        (HandshakeState::ReadingKey, HandshakeEvent::KeyRead(found)) => if found {
            (HandshakeState::Done, HandshakeActionView::Finish)
        } else {
            (HandshakeState::Failed, HandshakeActionView::Abort)
        },
        (s, _) => (s, HandshakeActionView::Ignore),
    }
}

/// Takes one step of a handshake.
pub fn handshake(args: &ChainArgs, state: HandshakeState, event: HandshakeEvent) -> (r: (
    HandshakeState,
    HandshakeAction,
))
    ensures
        (r.0, r.1@) == handshake_next(args@, state, event),
{
    match (state, event) {
        (HandshakeState::Done, _) => (HandshakeState::Done, HandshakeAction::Ignore),
        (HandshakeState::Failed, _) => (HandshakeState::Failed, HandshakeAction::Ignore),
        (_, HandshakeEvent::Failure) => (HandshakeState::Failed, HandshakeAction::Abort),
        (HandshakeState::Start, HandshakeEvent::Begin) => (
            HandshakeState::CreatingSession,
            HandshakeAction::RelaySessionCreate,
        ),
        (HandshakeState::CreatingSession, HandshakeEvent::Relayed) => (
            HandshakeState::SubmittingCreate,
            HandshakeAction::SubmitTx(submission(args)),
        ),
        (HandshakeState::SubmittingCreate, HandshakeEvent::Submitted) => (
            HandshakeState::AwaitingCreateCommit,
            HandshakeAction::AwaitCommit,
        ),
        (HandshakeState::AwaitingCreateCommit, HandshakeEvent::Committed) => (
            HandshakeState::WaitingBlocks(2),
            HandshakeAction::AwaitBlock,
        ),
        (HandshakeState::WaitingBlocks(n), HandshakeEvent::NewBlock) => if n <= 1 {
            (HandshakeState::Proving, HandshakeAction::Prove(prover_config(args, "quartz_session")))
        } else {
            (HandshakeState::WaitingBlocks(n - 1), HandshakeAction::AwaitBlock)
        },
        (HandshakeState::Proving, HandshakeEvent::Proved) => (
            HandshakeState::SettingPubKey,
            HandshakeAction::RelaySessionSetPubKey,
        ),
        (HandshakeState::SettingPubKey, HandshakeEvent::Relayed) => (
            HandshakeState::SubmittingSetPubKey,
            HandshakeAction::SubmitTx(submission(args)),
        ),
        (HandshakeState::SubmittingSetPubKey, HandshakeEvent::Submitted) => (
            HandshakeState::AwaitingSetCommit,
            HandshakeAction::AwaitCommit,
        ),
        (HandshakeState::AwaitingSetCommit, HandshakeEvent::Committed) => (
            HandshakeState::ReadingKey,
            HandshakeAction::ReadKey,
        ),
        (HandshakeState::ReadingKey, HandshakeEvent::KeyRead(found)) => if found {
            (HandshakeState::Done, HandshakeAction::Finish)
        } else {
            (HandshakeState::Failed, HandshakeAction::Abort)
        },
        (s, _) => (s, HandshakeAction::Ignore),
    }
}

/// The state of a handshake after a sequence of events.
pub open spec fn handshake_after(
    args: ChainArgsView,
    state: HandshakeState,
    events: Seq<HandshakeEvent>,
) -> HandshakeState
    decreases events.len(),
{
    if events.len() == 0 {
        state
    } else {
        handshake_next(args, handshake_after(args, state, events.drop_last()), events.last()).0
    }
}

/// Every transaction of a handshake is submitted to the contract and on the chain
/// that the host was started with, and every proof is asked for on that chain,
/// for the session's item, from the trusted block.
pub proof fn lemma_handshake_keeps_to_its_chain(
    args: ChainArgsView,
    state: HandshakeState,
    event: HandshakeEvent,
)
    ensures
        handshake_next(args, state, event).1 matches HandshakeActionView::SubmitTx(s) ==> s.chain_id
            == args.chain_id && s.contract == args.contract && s.sender == args.sender,
        handshake_next(args, state, event).1 matches HandshakeActionView::Prove(p) ==> p.chain_id
            == args.chain_id && p.contract == args.contract && p.storage_key
            == "quartz_session".spec_bytes() && p.trusted_height == args.trusted_height
            && p.trusted_hash == args.trusted_hash,
{
}

/// The proof is asked for only after the session's transaction was committed and
/// two new blocks have passed: every step that asks for the proof is the step of
/// a new block in the state that waits for its last block.
pub proof fn lemma_proof_follows_two_blocks(
    args: ChainArgsView,
    state: HandshakeState,
    event: HandshakeEvent,
)
    requires
        handshake_next(args, state, event).1 is Prove,
    ensures
        event == HandshakeEvent::NewBlock,
        state matches HandshakeState::WaitingBlocks(n) && n <= 1,
        handshake_next(args, HandshakeState::AwaitingCreateCommit, HandshakeEvent::Committed).0
            == HandshakeState::WaitingBlocks(2),
        handshake_next(args, HandshakeState::WaitingBlocks(2), HandshakeEvent::NewBlock).0
            == HandshakeState::WaitingBlocks(1),
{
}

/// A handshake in which every action succeeds is complete after its eleven steps.
pub proof fn lemma_happy_handshake(args: ChainArgsView)
    ensures
        handshake_after(
            args,
            HandshakeState::Start,
            seq![
                HandshakeEvent::Begin,
                HandshakeEvent::Relayed,
                HandshakeEvent::Submitted,
                HandshakeEvent::Committed,
                HandshakeEvent::NewBlock,
                HandshakeEvent::NewBlock,
                HandshakeEvent::Proved,
                HandshakeEvent::Relayed,
                HandshakeEvent::Submitted,
                HandshakeEvent::Committed,
                HandshakeEvent::KeyRead(true),
            ],
        ) == HandshakeState::Done,
{
    let e = seq![
        HandshakeEvent::Begin,
        HandshakeEvent::Relayed,
        HandshakeEvent::Submitted,
        HandshakeEvent::Committed,
        HandshakeEvent::NewBlock,
        HandshakeEvent::NewBlock,
        HandshakeEvent::Proved,
        HandshakeEvent::Relayed,
        HandshakeEvent::Submitted,
        HandshakeEvent::Committed,
        HandshakeEvent::KeyRead(true),
    ];
    let s = HandshakeState::Start;
    assert(e.subrange(0, 0) =~= Seq::<HandshakeEvent>::empty());
    assert(handshake_after(args, s, e.subrange(0, 0)) == s);
    lemma_after_step(args, s, e, 0);
    lemma_after_step(args, s, e, 1);
    lemma_after_step(args, s, e, 2);
    lemma_after_step(args, s, e, 3);
    lemma_after_step(args, s, e, 4);
    lemma_after_step(args, s, e, 5);
    lemma_after_step(args, s, e, 6);
    lemma_after_step(args, s, e, 7);
    lemma_after_step(args, s, e, 8);
    lemma_after_step(args, s, e, 9);
    lemma_after_step(args, s, e, 10);
    assert(e.subrange(0, 11) =~= e);
}

proof fn lemma_after_step(
    args: ChainArgsView,
    state: HandshakeState,
    events: Seq<HandshakeEvent>,
    k: int,
)
    requires
        0 <= k < events.len(),
    ensures
        handshake_after(args, state, events.subrange(0, k + 1)) == handshake_next(
            args,
            handshake_after(args, state, events.subrange(0, k)),
            events[k],
        ).0,
{
    let longer = events.subrange(0, k + 1);
    assert(longer.drop_last() =~= events.subrange(0, k));
    assert(longer.last() == events[k]);
}

/// The kinds of operation that the consumer runs.
#[derive(Clone, Copy, Debug, PartialEq, Eq, Structural)]
pub enum OperationKind {
    /// Process the pending requests.
    Transfer,
    /// Answer a balance question.
    Query,
}

/// Where an operation stands.
#[derive(Clone, Copy, Debug, PartialEq, Eq, Structural)]
pub enum OperationState {
    /// Nothing was done.
    Start,
    /// The contract's state is being fetched.
    Fetching,
    /// So many new blocks are to pass before the requests are proved.
    WaitingBlocks(u8),
    /// The proof of the requests is being made.
    Proving,
    /// The enclave is at work.
    Running,
    /// The enclave's answer is being submitted to the contract.
    Submitting,
    /// The operation is complete.
    Done,
    /// The operation failed.
    Failed,
}

/// What an operation's host reports.
#[derive(Clone, Copy, Debug, PartialEq, Eq, Structural)]
pub enum OperationEvent {
    Begin,
    Fetched,
    NewBlock,
    Proved,
    Answered,
    Submitted,
    Failure,
}

/// What an operation's host is to do.
#[derive(Clone, Debug, PartialEq, Eq)]
pub enum OperationAction {
    /// Fetch the contract's state, and for a transfer its pending requests and
    /// its sequence number.
    Fetch,
    /// Wait for the next new block.
    AwaitBlock,
    /// Prove the pending requests from the trusted block.
    Prove(ProverConfig),
    /// Hand the work to the enclave.
    CallEnclave,
    /// Submit the enclave's attested answer to the contract.
    SubmitTx(Submission),
    /// Report success.
    Finish,
    /// Report the failure.
    Abort,
    /// Nothing: the event does not belong here.
    Ignore,
}

/// What an operation's host is to do, as values.
pub enum OperationActionView {
    Fetch,
    AwaitBlock,
    Prove(ProverConfigView),
    CallEnclave,
    SubmitTx(SubmissionView),
    Finish,
    Abort,
    Ignore,
}

impl View for OperationAction {
    type V = OperationActionView;

    open spec fn view(&self) -> OperationActionView {
        match *self {
            OperationAction::Fetch => OperationActionView::Fetch,
            OperationAction::AwaitBlock => OperationActionView::AwaitBlock,
            OperationAction::Prove(p) => OperationActionView::Prove(p@),
            OperationAction::CallEnclave => OperationActionView::CallEnclave,
            OperationAction::SubmitTx(s) => OperationActionView::SubmitTx(s@),
            OperationAction::Finish => OperationActionView::Finish,
            OperationAction::Abort => OperationActionView::Abort,
            OperationAction::Ignore => OperationActionView::Ignore,
        }
    }
}

/// The step of an operation: the state after an event, and what to do. Only a
/// transfer needs a proof, of the contract's requests, and waits two blocks for
/// it.
pub open spec fn operation_next(
    args: ChainArgsView,
    kind: OperationKind,
    state: OperationState,
    event: OperationEvent,
) -> (OperationState, OperationActionView) {
    match (state, event) {
        (OperationState::Done, _) => (OperationState::Done, OperationActionView::Ignore),
        (OperationState::Failed, _) => (OperationState::Failed, OperationActionView::Ignore),
        (_, OperationEvent::Failure) => (OperationState::Failed, OperationActionView::Abort),
        (OperationState::Start, OperationEvent::Begin) => (
            OperationState::Fetching,
            OperationActionView::Fetch,
        ),
        (OperationState::Fetching, OperationEvent::Fetched) => match kind {
            OperationKind::Transfer => (
                OperationState::WaitingBlocks(2),
                OperationActionView::AwaitBlock,
            ),
            OperationKind::Query => (OperationState::Running, OperationActionView::CallEnclave),
        },
        (OperationState::WaitingBlocks(n), OperationEvent::NewBlock) => if n <= 1 {
            (
                OperationState::Proving,
                OperationActionView::Prove(prover_spec(args, "requests".spec_bytes())),
            )
        } else {
            (OperationState::WaitingBlocks((n - 1) as u8), OperationActionView::AwaitBlock)
        },
        (OperationState::Proving, OperationEvent::Proved) => (
            OperationState::Running,
            OperationActionView::CallEnclave,
        ),
        (OperationState::Running, OperationEvent::Answered) => (
            OperationState::Submitting,
            OperationActionView::SubmitTx(submission_spec(args)),
        ),
        (OperationState::Submitting, OperationEvent::Submitted) => (
            OperationState::Done,
            OperationActionView::Finish,
        ),
        (s, _) => (s, OperationActionView::Ignore),
    }
}

/// Takes one step of an operation that processes the pending requests.
pub fn transfer_handler(args: &ChainArgs, state: OperationState, event: OperationEvent) -> (r: (
    OperationState,
    OperationAction,
))
    ensures
        (r.0, r.1@) == operation_next(args@, OperationKind::Transfer, state, event),
{
    operation_step(args, OperationKind::Transfer, state, event)
}

/// Takes one step of an operation that answers a balance question.
pub fn query_handler(args: &ChainArgs, state: OperationState, event: OperationEvent) -> (r: (
    OperationState,
    OperationAction,
))
    ensures
        (r.0, r.1@) == operation_next(args@, OperationKind::Query, state, event),
{
    operation_step(args, OperationKind::Query, state, event)
}

/// Takes one step of an operation.
pub fn operation_step(
    args: &ChainArgs,
    kind: OperationKind,
    state: OperationState,
    event: OperationEvent,
) -> (r: (OperationState, OperationAction))
    ensures
        (r.0, r.1@) == operation_next(args@, kind, state, event),
{
    match (state, event) {
        (OperationState::Done, _) => (OperationState::Done, OperationAction::Ignore),
        (OperationState::Failed, _) => (OperationState::Failed, OperationAction::Ignore),
        (_, OperationEvent::Failure) => (OperationState::Failed, OperationAction::Abort),
        (OperationState::Start, OperationEvent::Begin) => (
            OperationState::Fetching,
            OperationAction::Fetch,
        ),
        (OperationState::Fetching, OperationEvent::Fetched) => match kind {
            OperationKind::Transfer => (
                OperationState::WaitingBlocks(2),
                OperationAction::AwaitBlock,
            ),
            OperationKind::Query => (OperationState::Running, OperationAction::CallEnclave),
        },
        (OperationState::WaitingBlocks(n), OperationEvent::NewBlock) => if n <= 1 {
            (OperationState::Proving, OperationAction::Prove(prover_config(args, "requests")))
        } else {
            (OperationState::WaitingBlocks(n - 1), OperationAction::AwaitBlock)
        },
        (OperationState::Proving, OperationEvent::Proved) => (
            OperationState::Running,
            OperationAction::CallEnclave,
        ),
        (OperationState::Running, OperationEvent::Answered) => (
            OperationState::Submitting,
            OperationAction::SubmitTx(submission(args)),
        ),
        (OperationState::Submitting, OperationEvent::Submitted) => (
            OperationState::Done,
            OperationAction::Finish,
        ),
        (s, _) => (s, OperationAction::Ignore),
    }
}

/// What was given to start an enclave on hardware.
#[derive(Clone, Copy, Debug, PartialEq, Eq, Structural)]
pub struct StartSettings {
    pub mock_sgx: bool,
    pub has_fmspc: bool,
    pub has_tcbinfo_contract: bool,
    pub has_dcap_verifier_contract: bool,
    pub has_admin_key: bool,
}

/// What a start on hardware lacks.
#[derive(Clone, Copy, Debug, PartialEq, Eq, Structural)]
pub enum StartError {
    /// The platform's FMSPC was not given.
    FmspcRequired,
    /// The contract that holds the TCB info was not given.
    TcbinfoContractRequired,
    /// The contract that verifies quotes was not given.
    DcapVerifierContractRequired,
    /// The administrator's key is not set.
    AdminKeyRequired,
}

/// What a start needs: a mock enclave nothing; an enclave on hardware its FMSPC,
/// the two contracts and the administrator's key, asked for in that order.
pub open spec fn start_spec(settings: StartSettings) -> Result<(), StartError> {
    if settings.mock_sgx {
        Ok(())
    } else if !settings.has_fmspc {
        Err(StartError::FmspcRequired)
    } else if !settings.has_tcbinfo_contract {
        Err(StartError::TcbinfoContractRequired)
    } else if !settings.has_dcap_verifier_contract {
        Err(StartError::DcapVerifierContractRequired)
    } else if !settings.has_admin_key {
        Err(StartError::AdminKeyRequired)
    } else {
        Ok(())
    }
}

/// Decides whether an enclave can be started with what was given.
pub fn check_enclave_start(settings: &StartSettings) -> (r: Result<(), StartError>)
    ensures
        r == start_spec(*settings),
{
    if settings.mock_sgx {
        Ok(())
    } else if !settings.has_fmspc {
        Err(StartError::FmspcRequired)
    } else if !settings.has_tcbinfo_contract {
        Err(StartError::TcbinfoContractRequired)
    } else if !settings.has_dcap_verifier_contract {
        Err(StartError::DcapVerifierContractRequired)
    } else if !settings.has_admin_key {
        Err(StartError::AdminKeyRequired)
    } else {
        Ok(())
    }
}

/// What asking the ledger for a transaction gave.
#[derive(Clone, Copy, Debug, PartialEq, Eq, Structural)]
pub enum TxQuery {
    /// The transaction was found: it is committed.
    Found,
    /// The node answered with an error; its text says, or does not say, that the
    /// transaction was not found.
    ResponseError { says_not_found: bool },
    /// Asking failed otherwise.
    OtherError,
}

/// What to do after asking the ledger for a transaction.
#[derive(Clone, Copy, Debug, PartialEq, Eq, Structural)]
pub enum Poll {
    /// The transaction is committed.
    Done,
    /// Ask again after so many milliseconds.
    RetryAfter(u64),
    /// Give up.
    Fail,
}

/// How long to wait between two questions for a transaction, in milliseconds.
pub const POLL_INTERVAL_MS: u64 = 400;

/// Decides how waiting for a transaction goes on: a transaction that the node
/// does not know yet is asked for again; every other error ends the wait.
pub fn block_tx_commit(outcome: TxQuery) -> (r: Poll)
    ensures
        r == match outcome {
            TxQuery::Found => Poll::Done,
            TxQuery::ResponseError { says_not_found } => if says_not_found {
                Poll::RetryAfter(POLL_INTERVAL_MS)
            } else {
                Poll::Fail
            },
            TxQuery::OtherError => Poll::Fail,
        },
{
    match outcome {
        TxQuery::Found => Poll::Done,
        TxQuery::ResponseError { says_not_found } => if says_not_found {
            Poll::RetryAfter(POLL_INTERVAL_MS)
        } else {
            Poll::Fail
        },
        TxQuery::OtherError => Poll::Fail,
    }
}

/// How often a failed transport is tried again, and how long the first wait is.
#[derive(Clone, Copy, Debug, PartialEq, Eq, Structural)]
pub struct RetryPolicy {
    pub base_ms: u64,
    pub max_attempts: u32,
}

/// Two to the power of `n`.
pub open spec fn pow2(n: nat) -> nat
    decreases n,
{
    if n == 0 {
        1
    } else {
        2 * pow2((n - 1) as nat)
    }
}

/// The wait before the retry that follows the failed attempt `attempt`, counted
/// from zero: it doubles with each attempt and is capped at what 64 bits can say.
/// After the last attempt there is no retry.
pub open spec fn backoff_spec(policy: RetryPolicy, attempt: u32) -> Option<u64> {
    if attempt >= policy.max_attempts {
        None
    } else if policy.base_ms * pow2(attempt as nat) > u64::MAX {
        Some(u64::MAX)
    } else {
        Some((policy.base_ms * pow2(attempt as nat)) as u64)
    }
}

/// The wait before the next retry, in milliseconds, or `None` where the failure
/// is to be surfaced.
pub fn backoff(policy: &RetryPolicy, attempt: u32) -> (r: Option<u64>)
    ensures
        r == backoff_spec(*policy, attempt),
{
    if attempt >= policy.max_attempts {
        return None;
    }
    let mut delay: u64 = policy.base_ms;
    let mut i: u32 = 0;
    proof {
        assert(pow2(0) == 1);
        assert(policy.base_ms * pow2(0) == policy.base_ms) by (nonlinear_arith)
            requires
                pow2(0) == 1,
        ;
    }
    while i < attempt
        invariant
            i <= attempt,
            delay == (if policy.base_ms * pow2(i as nat) > u64::MAX {
                u64::MAX as int
            } else {
                policy.base_ms * pow2(i as nat)
            }),
        decreases attempt - i,
    {
        proof {
            assert(pow2((i + 1) as nat) == 2 * pow2(i as nat));
            assert(policy.base_ms * pow2((i + 1) as nat) == 2 * (policy.base_ms * pow2(i as nat)))
                by (nonlinear_arith)
                requires
                    pow2((i + 1) as nat) == 2 * pow2(i as nat),
            ;
        }
        delay = match delay.checked_mul(2) {
            Some(d) => d,
            None => u64::MAX,
        };
        i += 1;
    }
    Some(delay)
}

/// Whether `c` is a hex digit in upper case.
pub open spec fn is_upper_hex(c: char) -> bool {
    c == '0' || c == '1' || c == '2' || c == '3' || c == '4' || c == '5' || c == '6' || c == '7'
        || c == '8' || c == '9' || c == 'A' || c == 'B' || c == 'C' || c == 'D' || c == 'E' || c
        == 'F'
}

/// Whether the words `tx (`, 64 upper-case hex digits and `) not found` stand in
/// `text` from `at` on.
pub open spec fn not_found_at(text: Seq<char>, at: int) -> bool {
    &&& 0 <= at
    &&& at + 79 <= text.len()
    &&& text.subrange(at, at + 4) == "tx ("@
    &&& forall|j: int| at + 4 <= j < at + 68 ==> is_upper_hex(#[trigger] text[j])
    &&& text.subrange(at + 68, at + 79) == ") not found"@
}

/// Whether the text of a node's error says that a transaction was not found: the
/// words `tx (`, 64 upper-case hex digits, `) not found` stand somewhere in it.
pub open spec fn tx_not_found(text: Seq<char>) -> bool {
    exists|at: int| not_found_at(text, at)
}

/// Calls `regex::Regex::new` on the pattern and, on the expression it gives,
/// `is_match` on the text. Trusted: for the one pattern that `requires` admits,
/// the expression is made, and it matches where the pattern's words stand
/// somewhere in the text.
#[verifier::external_body]
fn regex_is_match(pattern: &str, text: &str) -> (r: bool)
    requires
        pattern@ == "tx \\([A-F0-9]{64}\\) not found"@,
    ensures
        r == tx_not_found(text@),
{
    match regex::Regex::new(pattern) {
        Ok(re) => re.is_match(text),
        Err(_) => false,
    }
}

/// Whether the text of a node's error says that a transaction was not found.
pub fn says_tx_not_found(text: &str) -> (r: bool)
    ensures
        r == tx_not_found(text@),
{
    regex_is_match("tx \\([A-F0-9]{64}\\) not found", text)
}

} // verus!
