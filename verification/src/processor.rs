//! The request processor of the transfers application: from a proved batch of
//! requests and the encrypted state to the new encrypted state, attested.

use vstd::prelude::*;
use vstd::string::*;
use crate::account::account_bytes_spec;
use crate::attested::Attested;
use crate::attestor::Attestor;
use crate::balances::{to_map, Balances, EntrySpec};
use crate::bytes::{bytes_eq, copy_bytes};
use crate::codec::{
    balance_json, encode_balance, encode_state, state_json, parse_state, parse_transfer, read_state_spec,
    read_transfer_spec,
};
use crate::attested::HasUserData;
use crate::crypto::{check_sec1_point, is_sealed_length, is_sec1_point, public_key_spec};
use crate::enclave::{encrypt_to, EnclaveState};
use crate::error::{Error, ProtocolError};
use crate::ledger::{
    apply_all, apply_requests, clear_views, ClearRequest, ClearRequestView, LedgerError, Outcome,
    Withdrawal, withdrawal_views,
};
use crate::light_client::block_views;
use crate::membership::ProofSpec;
use crate::messages::{
    check_requests_plain, count_sequenced, request_views, requests_are_plain, requests_json,
    requests_to_json, sequenced_count, QueryRequestMessage, QueryResponseMessage, Request,
    RequestView, UpdateMsg, UpdateRequestMessage,
};
use crate::proof_of_publication::{
    pop_spec, storage_key_of, storage_path, LightClientOpts, ProofOfPublication,
};
use crate::replay::{ensure_seq_num_consistency, seq_guard, SeqError};
use crate::state::MrEnclave;
use crate::wire::{check_plain_text, is_plain_text};

verus! {

/// What the enclave is configured with.
pub struct Config {
    pub mr_enclave: MrEnclave,
    pub light_client_opts: LightClientOpts,
    pub proof_spec: ProofSpec,
}

/// Whether a state field holds the mark of a first round or a ciphertext.
#[derive(Clone, Copy, Debug, PartialEq, Eq, Structural)]
pub enum StateSource {
    /// The single zero byte that stands for the empty state of a first round.
    Sentinel,
    /// A ciphertext of the state.
    Encrypted,
}

/// What a state field holds. A single byte other than zero is no state.
pub open spec fn classify_spec(state: Seq<u8>) -> Result<StateSource, Error> {
    if state.len() == 1 {
        if state[0] == 0 {
            Ok(StateSource::Sentinel)
        } else {
            Err(Error::Decrypt)
        }
    } else {
        Ok(StateSource::Encrypted)
    }
}

/// Tells the mark of a first round from a ciphertext.
pub fn classify_state(state: &[u8]) -> (r: Result<StateSource, Error>)
    ensures
        r == classify_spec(state@),
{
    if state.len() == 1 {
        if state[0] == 0 {
            Ok(StateSource::Sentinel)
        } else {
            Err(Error::Decrypt)
        }
    } else {
        Ok(StateSource::Encrypted)
    }
}

/// The accounts that a round starts from: none for the mark of a first round,
/// else those that the decrypted state holds. `plaintext` is what decryption
/// gave, if it gave anything.
pub open spec fn open_spec(state: Seq<u8>, has_key: bool, plaintext: Option<Seq<u8>>) -> Result<
    Seq<EntrySpec>,
    Error,
> {
    match classify_spec(state) {
        Err(e) => Err(e),
        Ok(StateSource::Sentinel) => Ok(Seq::<EntrySpec>::empty()),
        Ok(StateSource::Encrypted) => if !has_key {
            Err(Error::KeyUnavailable)
        } else {
            match plaintext {
                None => Err(Error::Decrypt),
                Some(text) => match read_state_spec(text) {
                    None => Err(Error::Protocol(ProtocolError::MalformedState)),
                    Some(entries) => Ok(entries),
                },
            }
        },
    }
}

/// Opens the state of a round, given what decrypting it gave.
pub fn open_state(state: &[u8], has_key: bool, plaintext: Option<&[u8]>) -> (r: Result<
    Balances,
    Error,
>)
    ensures
        match open_spec(
            state@,
            has_key,
            match plaintext {
                Some(p) => Some(p@),
                None => None,
            },
        ) {
            Ok(entries) => r matches Ok(b) && b.wf() && b.entries() == entries,
            Err(e) => r matches Err(f) && f == e,
        },
{
    match classify_state(state) {
        Err(e) => Err(e),
        Ok(StateSource::Sentinel) => Ok(Balances::new()),
        Ok(StateSource::Encrypted) => {
            if !has_key {
                return Err(Error::KeyUnavailable);
            }
            match plaintext {
                None => Err(Error::Decrypt),
                Some(text) => match parse_state(text) {
                    None => Err(Error::Protocol(ProtocolError::MalformedState)),
                    Some(b) => Ok(b),
                },
            }
        },
    }
}

/// What has to hold of a round before anything is changed: the state opens,
/// and the ledger's sequence number is the local one plus the batch's sequenced
/// requests.
pub open spec fn admission_spec(
    local_seq: u64,
    state: Seq<u8>,
    requests: Seq<RequestView>,
    seq_num: u64,
    has_key: bool,
    plaintext: Option<Seq<u8>>,
) -> Result<Seq<EntrySpec>, Error> {
    match open_spec(state, has_key, plaintext) {
        Err(e) => Err(e),
        Ok(entries) => match seq_guard(local_seq, seq_num, sequenced_count(requests)) {
            Err(SeqError::ReplayAttempted) => Err(Error::ReplayAttempted),
            Err(SeqError::SeqMismatch) => Err(Error::SeqMismatch),
            Ok(_) => Ok(entries),
        },
    }
}

/// Lets a round in: opens its state and checks its sequence number.
pub fn admit_round(
    local_seq: u64,
    msg: &UpdateRequestMessage,
    has_key: bool,
    plaintext: Option<&[u8]>,
) -> (r: Result<Balances, Error>)
    ensures
        match admission_spec(
            local_seq,
            msg.state@,
            request_views(msg.requests@),
            msg.seq_num,
            has_key,
            match plaintext {
                Some(p) => Some(p@),
                None => None,
            },
        ) {
            Ok(entries) => r matches Ok(b) && b.wf() && b.entries() == entries,
            Err(e) => r matches Err(f) && f == e,
        },
{
    let balances = match open_state(msg.state.as_slice(), has_key, plaintext) {
        Ok(b) => b,
        Err(e) => {
            return Err(e);
        },
    };
    let n_seq = count_sequenced(&msg.requests);
    match ensure_seq_num_consistency(local_seq, msg.seq_num, n_seq) {
        Ok(_) => Ok(balances),
        Err(SeqError::ReplayAttempted) => Err(Error::ReplayAttempted),
        Err(SeqError::SeqMismatch) => Err(Error::SeqMismatch),
    }
}

/// The request in the clear that a stored request stands for. A transfer is what
/// its decrypted text says; `plaintext` is what decrypting it gave, if anything.
pub open spec fn resolve_spec(request: RequestView, has_key: bool, plaintext: Option<Seq<u8>>) -> Result<
    ClearRequestView,
    Error,
> {
    match request {
        RequestView::Withdraw(address) => Ok(ClearRequestView::Withdraw(address)),
        RequestView::Deposit(address, amount) => Ok(ClearRequestView::Deposit(address, amount)),
        RequestView::Transfer(_) => if !has_key {
            Err(Error::KeyUnavailable)
        } else {
            match plaintext {
                None => Err(Error::Decrypt),
                Some(text) => match read_transfer_spec(text) {
                    None => Err(Error::Protocol(ProtocolError::MalformedTransfer)),
                    Some((sender, receiver, amount)) => Ok(
                        ClearRequestView::Transfer { sender, receiver, amount },
                    ),
                },
            }
        },
    }
}

/// The requests in the clear that a batch stands for, or the failure of the
/// first request that has none.
pub open spec fn resolve_all_spec(
    requests: Seq<RequestView>,
    has_key: bool,
    plaintexts: Seq<Option<Seq<u8>>>,
) -> Result<Seq<ClearRequestView>, Error>
    decreases requests.len(),
{
    if requests.len() == 0 {
        Ok(Seq::<ClearRequestView>::empty())
    } else {
        match resolve_all_spec(requests.drop_last(), has_key, plaintexts) {
            Err(e) => Err(e),
            Ok(done) => match resolve_spec(
                requests.last(),
                has_key,
                plaintexts[requests.len() - 1],
            ) {
                Err(e) => Err(e),
                Ok(clear) => Ok(done.push(clear)),
            },
        }
    }
}

/// A decrypted text, if there is one, as values.
pub open spec fn text_view(plaintext: Option<Vec<u8>>) -> Option<Seq<u8>> {
    match plaintext {
        Some(p) => Some(p@),
        None => None,
    }
}

/// The decrypted texts of a batch as values.
pub open spec fn plaintext_views(plaintexts: Seq<Option<Vec<u8>>>) -> Seq<Option<Seq<u8>>> {
    Seq::new(
        plaintexts.len(),
        |i: int|
            match plaintexts[i] {
                Some(p) => Some(p@),
                None => None,
            },
    )
}

/// Resolves one stored request.
pub fn resolve(request: &Request, has_key: bool, plaintext: &Option<Vec<u8>>) -> (r: Result<
    ClearRequest,
    Error,
>)
    ensures
        match resolve_spec(
            request@,
            has_key,
            match *plaintext {
                Some(p) => Some(p@),
                None => None,
            },
        ) {
            Ok(clear) => r matches Ok(c) && c@ == clear,
            Err(e) => r matches Err(f) && f == e,
        },
{
    match request {
        Request::Withdraw(address) => Ok(ClearRequest::Withdraw(copy_bytes(address.as_slice()))),
        Request::Deposit(address, amount) => Ok(
            ClearRequest::Deposit(copy_bytes(address.as_slice()), *amount),
        ),
        Request::Transfer(_) => {
            if !has_key {
                return Err(Error::KeyUnavailable);
            }
            match plaintext {
                None => Err(Error::Decrypt),
                Some(text) => match parse_transfer(text.as_slice()) {
                    None => Err(Error::Protocol(ProtocolError::MalformedTransfer)),
                    Some(t) => Ok(
                        ClearRequest::Transfer {
                            sender: t.sender,
                            receiver: t.receiver,
                            amount: t.amount,
                        },
                    ),
                },
            }
        },
    }
}

/// What a batch does to the accounts, given what decrypting its transfers gave.
pub open spec fn fold_spec(
    entries: Seq<EntrySpec>,
    requests: Seq<RequestView>,
    has_key: bool,
    plaintexts: Seq<Option<Seq<u8>>>,
) -> Result<Outcome, Error> {
    match resolve_all_spec(requests, has_key, plaintexts) {
        Err(e) => Err(e),
        Ok(clear) => match apply_all(
            Outcome { balances: to_map(entries), withdrawals: Seq::<Withdrawal>::empty() },
            clear,
        ) {
            None => Err(Error::Ledger(LedgerError::BalanceOverflow)),
            Some(after) => Ok(after),
        },
    }
}

/// Applies a batch to the accounts, given what decrypting its transfers gave.
/// The accounts that were handed in are left as they were.
pub fn fold(
    balances: &Balances,
    requests: &Vec<Request>,
    has_key: bool,
    plaintexts: &Vec<Option<Vec<u8>>>,
) -> (r: Result<(Balances, Vec<(Vec<u8>, u128)>), Error>)
    requires
        balances.wf(),
        plaintexts@.len() == requests@.len(),
    ensures
        match fold_spec(
            balances.entries(),
            request_views(requests@),
            has_key,
            plaintext_views(plaintexts@),
        ) {
            Ok(after) => r matches Ok(out) && out.0.wf() && out.0@ == after.balances
                && withdrawal_views(out.1@) == after.withdrawals,
            Err(e) => r matches Err(f) && f == e,
        },
{
    let ghost views = request_views(requests@);
    let ghost plains = plaintext_views(plaintexts@);
    let mut clear: Vec<ClearRequest> = Vec::new();
    let mut i: usize = 0;
    proof {
        assert(views.subrange(0, 0) =~= Seq::<RequestView>::empty());
        assert(clear_views(clear@) =~= Seq::<ClearRequestView>::empty());
    }
    while i < requests.len()
        invariant
            i <= requests.len(),
            plaintexts@.len() == requests@.len(),
            views == request_views(requests@),
            plains == plaintext_views(plaintexts@),
            resolve_all_spec(views.subrange(0, i as int), has_key, plains) == Ok::<
                Seq<ClearRequestView>,
                Error,
            >(clear_views(clear@)),
        decreases requests.len() - i,
    {
        proof {
            let next = views.subrange(0, i + 1);
            assert(next.drop_last() =~= views.subrange(0, i as int));
            assert(next.last() == requests@[i as int]@);
        }
        match resolve(&requests[i], has_key, &plaintexts[i]) {
            Ok(c) => {
                let ghost before = clear_views(clear@);
                let ghost added = c@;
                clear.push(c);
                proof {
                    assert(clear_views(clear@) =~= before.push(added));
                }
            },
            Err(e) => {
                proof {
                    lemma_resolve_failure_stays(views, has_key, plains, i + 1);
                }
                return Err(e);
            },
        }
        i += 1;
    }
    proof {
        assert(views.subrange(0, i as int) =~= views);
    }
    match apply_requests(balances, &clear) {
        Ok(out) => Ok(out),
        Err(_) => Err(Error::Ledger(LedgerError::BalanceOverflow)),
    }
}

/// Once a prefix of a batch fails to resolve, the batch fails in the same way.
proof fn lemma_resolve_failure_stays(
    requests: Seq<RequestView>,
    has_key: bool,
    plaintexts: Seq<Option<Seq<u8>>>,
    k: int,
)
    requires
        0 <= k <= requests.len(),
        resolve_all_spec(requests.subrange(0, k), has_key, plaintexts) is Err,
    ensures
        resolve_all_spec(requests, has_key, plaintexts) == resolve_all_spec(
            requests.subrange(0, k),
            has_key,
            plaintexts,
        ),
    decreases requests.len() - k,
{
    if k == requests.len() {
        assert(requests.subrange(0, k) =~= requests);
    } else {
        let next = requests.subrange(0, k + 1);
        assert(next.drop_last() =~= requests.subrange(0, k));
        lemma_resolve_failure_stays(requests, has_key, plaintexts, k + 1);
    }
}

/// A batch without requests leaves the accounts as they are and pays nothing out.
pub proof fn lemma_empty_batch_is_no_op(
    entries: Seq<EntrySpec>,
    has_key: bool,
    plaintexts: Seq<Option<Seq<u8>>>,
)
    ensures
        fold_spec(entries, Seq::<RequestView>::empty(), has_key, plaintexts) == Ok::<
            Outcome,
            Error,
        >(Outcome { balances: to_map(entries), withdrawals: Seq::<Withdrawal>::empty() }),
{
}

/// The mark of a first round opens to no accounts; any other single byte is
/// refused.
pub proof fn lemma_sentinel(state: Seq<u8>, has_key: bool, plaintext: Option<Seq<u8>>)
    requires
        state.len() == 1,
    ensures
        state[0] == 0 ==> open_spec(state, has_key, plaintext) == Ok::<Seq<EntrySpec>, Error>(
            Seq::<EntrySpec>::empty(),
        ),
        state[0] != 0 ==> open_spec(state, has_key, plaintext) == Err::<Seq<EntrySpec>, Error>(
            Error::Decrypt,
        ),
{
}

/// The balance that a question asks for, given what decrypting the state gave: the
/// account's balance, an account that is not there counting as empty.
pub open spec fn query_spec(
    state: Seq<u8>,
    address: Seq<u8>,
    ephemeral_pubkey: Seq<u8>,
    has_key: bool,
    plaintext: Option<Seq<u8>>,
) -> Result<u128, Error> {
    if !is_plain_text(address) {
        Err(Error::Protocol(ProtocolError::MalformedAddress))
    } else {
        match open_spec(state, has_key, plaintext) {
            Err(e) => Err(e),
            Ok(entries) => if !is_sec1_point(ephemeral_pubkey) {
                Err(Error::Protocol(ProtocolError::InvalidPublicKey))
            } else {
                Ok(crate::ledger::balance_of(to_map(entries), address))
            },
        }
    }
}

/// Finds the balance that a question asks for, given what decrypting the state
/// gave.
pub fn answer(msg: &QueryRequestMessage, has_key: bool, plaintext: Option<&[u8]>) -> (r: Result<
    u128,
    Error,
>)
    ensures
        r == query_spec(
            msg.state@,
            msg.address@,
            msg.ephemeral_pubkey@,
            has_key,
            match plaintext {
                Some(p) => Some(p@),
                None => None,
            },
        ),
{
    if !check_plain_text(msg.address.as_slice()) {
        return Err(Error::Protocol(ProtocolError::MalformedAddress));
    }
    let balances = match open_state(msg.state.as_slice(), has_key, plaintext) {
        Ok(b) => b,
        Err(e) => {
            return Err(e);
        },
    };
    if !check_sec1_point(msg.ephemeral_pubkey.as_slice()) {
        return Err(Error::Protocol(ProtocolError::InvalidPublicKey));
    }
    match balances.get(msg.address.as_slice()) {
        Some(b) => Ok(b),
        None => Ok(0),
    }
}

/// The enclave's service for the transfers application.
pub struct TransfersService<A> {
    pub config: Config,
    pub enclave: EnclaveState,
    pub attestor: A,
}

/// Whether `plain` can be what decrypting `sealed` gave: nothing, or a text
/// that is shorter than the ciphertext by the cipher's framing.
pub open spec fn fits(sealed: Seq<u8>, plain: Option<Seq<u8>>) -> bool {
    plain matches Some(p) ==> is_sealed_length(sealed.len(), p.len())
}

/// Whether `plaintexts` can be what decrypting the transfers among `requests`
/// gave, one for each request.
pub open spec fn all_fit(requests: Seq<RequestView>, plaintexts: Seq<Option<Seq<u8>>>) -> bool {
    forall|i: int|
        0 <= i < requests.len() && i < plaintexts.len() ==> match requests[i] {
            RequestView::Transfer(ciphertext) => fits(ciphertext, #[trigger] plaintexts[i]),
            _ => plaintexts[i] is None,
        }
}

/// Whether the enclave can encrypt to its own session: it holds a secret key that
/// has a public key.
pub open spec fn can_seal(key: Option<Seq<u8>>) -> bool {
    key matches Some(k) && public_key_spec(k) is Some
}

/// How the answer of a round relates to what it was given, where `state_plain`
/// and `plaintexts` are what decrypting the state and the transfers gave and
/// `final_seq` is the local sequence number after the round.
pub open spec fn round_relation<A: Attestor>(
    attestor: &A,
    local_seq: u64,
    msg: &UpdateRequestMessage,
    key: Option<Seq<u8>>,
    state_plain: Option<Seq<u8>>,
    plaintexts: Seq<Option<Seq<u8>>>,
    r: Result<Attested<UpdateMsg, Vec<u8>>, Error>,
    final_seq: u64,
) -> bool {
    let requests = request_views(msg.requests@);
    let has_key = key.is_some();
    fits(msg.state@, state_plain) && all_fit(requests, plaintexts) && match admission_spec(
        local_seq,
        msg.state@,
        requests,
        msg.seq_num,
        has_key,
        state_plain,
    ) {
        Err(e) => r matches Err(f) && f == e && final_seq == local_seq,
        Ok(entries) => final_seq == msg.seq_num && match fold_spec(
            entries,
            requests,
            has_key,
            plaintexts,
        ) {
            Err(e) => r matches Err(f) && f == e,
            Ok(after) => match r {
                Ok(attested) => can_seal(key) && attested.msg@.quantity == requests.len()
                    && attested.msg@.withdrawals == after.withdrawals && holds_state(
                    attested.msg@.ciphertext.len(),
                    after.balances,
                ) && attestor.attests(attested.attestation@, attested.msg.user_data_spec()),
                Err(e) => if can_seal(key) {
                    e == Error::Encrypt || e == Error::Attestor
                } else {
                    e == Error::KeyUnavailable
                },
            },
        },
    }
}

/// Whether a ciphertext of `sealed` bytes can hold the text of the accounts
/// `balances`.
pub open spec fn holds_state(sealed: nat, balances: Map<Seq<u8>, u128>) -> bool {
    exists|left: Seq<EntrySpec>|
        crate::balances::ascending(left) && #[trigger] to_map(left) == balances
            && is_sealed_length(sealed, state_json(left).len())
}

/// How the answer to a question relates to what was asked, where `state_plain`
/// is what decrypting the state gave.
pub open spec fn question_relation<A: Attestor>(
    attestor: &A,
    msg: &QueryRequestMessage,
    has_key: bool,
    state_plain: Option<Seq<u8>>,
    r: Result<Attested<QueryResponseMessage, Vec<u8>>, Error>,
) -> bool {
    fits(msg.state@, state_plain) && match query_spec(
        msg.state@,
        msg.address@,
        msg.ephemeral_pubkey@,
        has_key,
        state_plain,
    ) {
        Err(e) => r matches Err(f) && f == e,
        Ok(balance) => match r {
            Ok(attested) => attested.msg@.address == msg.address@ && is_sealed_length(
                attested.msg@.encrypted_bal.len(),
                balance_json(balance).len(),
            ) && attestor.attests(attested.attestation@, attested.msg.user_data_spec()),
            Err(e) => e == Error::Encrypt || e == Error::Attestor,
        },
    }
}

impl<A: Attestor> TransfersService<A> {
    /// The service of an enclave with its configuration and attestor.
    pub fn new(config: Config, enclave: EnclaveState, attestor: A) -> (r: Self)
        ensures
            r.config == config,
            r.enclave == enclave,
            r.attestor == attestor,
    {
        Self { config, enclave, attestor }
    }

    /// What has to hold of a proved batch before it is looked at: its addresses
    /// can be written, its requests can be counted, a session was taken up, and
    /// the proof shows the batch itself under the contract's requests.
    pub open spec fn precheck_spec(
        &self,
        pop: &ProofOfPublication<UpdateRequestMessage>,
        now: u64,
    ) -> Result<(), Error> {
        let requests = request_views(pop.msg.requests@);
        if !requests_are_plain(requests) {
            Err(Error::Protocol(ProtocolError::MalformedAddress))
        } else if requests.len() > u32::MAX {
            Err(Error::Protocol(ProtocolError::TooManyRequests))
        } else if self.enclave.contract_spec() is None {
            Err(Error::KeyUnavailable)
        } else {
            match pop_spec(
                block_views(pop.light_client_proof@),
                pop.merkle_proof,
                pop.storage_key@,
                pop.value@,
                self.config.light_client_opts,
                self.config.proof_spec,
                storage_path(
                    account_bytes_spec(self.enclave.contract_spec().unwrap()).unwrap(),
                    "requests".spec_bytes(),
                ),
                now,
            ) {
                Err(e) => Err(e),
                Ok(value) => if value != requests_json(requests) {
                    Err(Error::ProofVerification)
                } else {
                    Ok(())
                },
            }
        }
    }

    /// Checks a proved batch before it is looked at.
    pub fn precheck(&self, pop: &ProofOfPublication<UpdateRequestMessage>, now: u64) -> (r: Result<
        (),
        Error,
    >)
        ensures
            r == self.precheck_spec(pop, now),
    {
        if !check_requests_plain(&pop.msg.requests) {
            return Err(Error::Protocol(ProtocolError::MalformedAddress));
        }
        if pop.msg.requests.len() > 0xffff_ffff {
            return Err(Error::Protocol(ProtocolError::TooManyRequests));
        }
        let contract = match self.enclave.contract() {
            Some(c) => c,
            None => {
                return Err(Error::KeyUnavailable);
            },
        };
        let expected_key = storage_key_of(contract, "requests".as_bytes());
        let value = match pop.verify(
            &self.config.light_client_opts,
            self.config.proof_spec,
            expected_key.as_slice(),
            now,
        ) {
            Ok(v) => v,
            Err(e) => {
                return Err(e);
            },
        };
        let published = requests_to_json(&pop.msg.requests);
        if !bytes_eq(value.as_slice(), published.as_slice()) {
            return Err(Error::ProofVerification);
        }
        Ok(())
    }

    /// Decrypts the transfers of a batch. What comes back for a transfer is
    /// whatever the cipher gives; for the other requests there is nothing.
    fn decrypt_transfers(&self, requests: &Vec<Request>) -> (r: Vec<Option<Vec<u8>>>)
        ensures
            r@.len() == requests@.len(),
            all_fit(request_views(requests@), plaintext_views(r@)),
    {
        let mut out: Vec<Option<Vec<u8>>> = Vec::new();
        let mut i: usize = 0;
        while i < requests.len()
            invariant
                i <= requests.len(),
                out@.len() == i,
                all_fit(request_views(requests@), plaintext_views(out@)),
            decreases requests.len() - i,
        {
            let ghost before = plaintext_views(out@);
            let plain = match &requests[i] {
                Request::Transfer(ciphertext) => match self.enclave.decrypt_with_sk(
                    ciphertext.as_slice(),
                ) {
                    Ok(p) => Some(p),
                    Err(_) => None,
                },
                _ => None,
            };
            out.push(plain);
            proof {
                let after = plaintext_views(out@);
                assert forall|j: int|
                    0 <= j < request_views(requests@).len() && j < after.len() implies match request_views(
                    requests@,
                )[j] {
                    RequestView::Transfer(ciphertext) => fits(ciphertext, #[trigger] after[j]),
                    _ => after[j] is None,
                } by {
                    if j < i {
                        assert(after[j] == before[j]);
                    }
                }
            }
            i += 1;
        }
        out
    }

    /// Processes a proved batch: checks the proof, opens the state, checks the
    /// sequence number, applies the requests, and answers with the new encrypted
    /// state, attested. What decryption gives is not known beforehand; the answer
    /// is what `round_relation` says for whatever it gave. Only the local
    /// sequence number changes, and only once the round was let in.
    pub fn run(&mut self, pop: &ProofOfPublication<UpdateRequestMessage>, now: u64) -> (r: Result<
        Attested<UpdateMsg, Vec<u8>>,
        Error,
    >)
        ensures
            final(self).config == old(self).config,
            final(self).attestor == old(self).attestor,
            final(self).enclave.key() == old(self).enclave.key(),
            final(self).enclave.contract_spec() == old(self).enclave.contract_spec(),
            final(self).enclave.nonce_spec() == old(self).enclave.nonce_spec(),
            old(self).precheck_spec(pop, now) matches Err(e) ==> (r matches Err(f) && f == e
                && final(self).enclave.seq() == old(self).enclave.seq()),
            old(self).precheck_spec(pop, now) is Ok ==> exists|
                state_plain: Option<Seq<u8>>,
                plaintexts: Seq<Option<Seq<u8>>>,
            |
                #[trigger] round_relation(
                    &old(self).attestor,
                    old(self).enclave.seq(),
                    &pop.msg,
                    old(self).enclave.key(),
                    state_plain,
                    plaintexts,
                    r,
                    final(self).enclave.seq(),
                ),
    {
        match self.precheck(pop, now) {
            Ok(()) => {},
            Err(e) => {
                return Err(e);
            },
        }
        let msg = &pop.msg;
        let has_key = self.enclave.has_key();
        let local_seq = self.enclave.sequence_number();
        let state_plain: Option<Vec<u8>> = match classify_state(msg.state.as_slice()) {
            Ok(StateSource::Encrypted) => match self.enclave.decrypt_with_sk(msg.state.as_slice()) {
                Ok(p) => Some(p),
                Err(_) => None,
            },
            _ => None,
        };
        let ghost sp: Option<Seq<u8>> = text_view(state_plain);
        let opened = match &state_plain {
            Some(p) => admit_round(local_seq, msg, has_key, Some(p.as_slice())),
            None => admit_round(local_seq, msg, has_key, None),
        };
        let balances = match opened {
            Ok(b) => b,
            Err(e) => {
                let r = Err(e);
                proof {
                    assert(round_relation(
                        &self.attestor,
                        local_seq,
                        msg,
                        self.enclave.key(),
                        sp,
                        Seq::<Option<Seq<u8>>>::empty(),
                        r,
                        local_seq,
                    ));
                }
                return r;
            },
        };
        self.enclave.set_sequence_number(msg.seq_num);
        let plaintexts = self.decrypt_transfers(&msg.requests);
        let ghost ps = plaintext_views(plaintexts@);
        let (new_balances, withdrawals) = match fold(&balances, &msg.requests, has_key, &plaintexts) {
            Ok(out) => out,
            Err(e) => {
                let r = Err(e);
                proof {
                    assert(round_relation(&self.attestor, local_seq, msg, self.enclave.key(), sp, ps, r, msg.seq_num));
                }
                return r;
            },
        };
        let sealed = self.seal(&new_balances, msg.requests.len() as u32, withdrawals);
        proof {
            let left = new_balances.entries();
            assert(to_map(left) == new_balances@);
            assert(sealed is Ok ==> holds_state(
                sealed->Ok_0.msg@.ciphertext.len(),
                new_balances@,
            ));
            assert(round_relation(&self.attestor, local_seq, msg, self.enclave.key(), sp, ps, sealed, msg.seq_num));
        }
        sealed
    }

    /// Encrypts the new state to the session's key and attests the answer.
    fn seal(&self, balances: &Balances, quantity: u32, withdrawals: Vec<(Vec<u8>, u128)>) -> (r:
        Result<Attested<UpdateMsg, Vec<u8>>, Error>)
        ensures
            r matches Ok(attested) ==> can_seal(self.enclave.key()) && attested.msg@.quantity
                == quantity && attested.msg@.withdrawals == withdrawal_views(withdrawals@)
                && is_sealed_length(
                attested.msg@.ciphertext.len(),
                state_json(balances.entries()).len(),
            ) && self.attestor.attests(attested.attestation@, attested.msg.user_data_spec()),
            r matches Err(e) ==> (if can_seal(self.enclave.key()) {
                e == Error::Encrypt || e == Error::Attestor
            } else {
                e == Error::KeyUnavailable
            }),
    {
        let public_key = match self.enclave.public_key() {
            Some(pk) => pk,
            None => {
                return Err(Error::KeyUnavailable);
            },
        };
        let plaintext = encode_state(balances);
        let ciphertext = match encrypt_to(public_key.as_slice(), plaintext.as_slice()) {
            Ok(c) => c,
            Err(_) => {
                return Err(Error::Encrypt);
            },
        };
        let msg = UpdateMsg { ciphertext, quantity, withdrawals };
        match self.attestor.quote(&msg) {
            Ok(quote) => Ok(Attested::new(msg, quote)),
            Err(_) => Err(Error::Attestor),
        }
    }

    /// Answers a question for one account's balance: opens the state, reads the
    /// balance, encrypts it to the asker's key, and attests the answer. Nothing
    /// of the enclave's state changes.
    pub fn query(&self, msg: &QueryRequestMessage) -> (r: Result<
        Attested<QueryResponseMessage, Vec<u8>>,
        Error,
    >)
        ensures
            exists|state_plain: Option<Seq<u8>>|
                #[trigger] question_relation(
                    &self.attestor,
                    msg,
                    self.enclave.key().is_some(),
                    state_plain,
                    r,
                ),
    {
        let has_key = self.enclave.has_key();
        let state_plain: Option<Vec<u8>> = match classify_state(msg.state.as_slice()) {
            Ok(StateSource::Encrypted) => match self.enclave.decrypt_with_sk(msg.state.as_slice()) {
                Ok(p) => Some(p),
                Err(_) => None,
            },
            _ => None,
        };
        let ghost sp: Option<Seq<u8>> = text_view(state_plain);
        let found = match &state_plain {
            Some(p) => answer(msg, has_key, Some(p.as_slice())),
            None => answer(msg, has_key, None),
        };
        let balance = match found {
            Ok(b) => b,
            Err(e) => {
                let r = Err(e);
                proof {
                    assert(question_relation(&self.attestor, msg, has_key, sp, r));
                }
                return r;
            },
        };
        let plaintext = encode_balance(balance);
        let r = match encrypt_to(msg.ephemeral_pubkey.as_slice(), plaintext.as_slice()) {
            Err(_) => Err(Error::Encrypt),
            Ok(encrypted_bal) => {
                let answer = QueryResponseMessage {
                    address: copy_bytes(msg.address.as_slice()),
                    encrypted_bal,
                };
                match self.attestor.quote(&answer) {
                    Ok(quote) => Ok(Attested::new(answer, quote)),
                    Err(_) => Err(Error::Attestor),
                }
            },
        };
        proof {
            assert(question_relation(&self.attestor, msg, has_key, sp, r));
        }
        r
    }
}

/// The requests in the clear that a batch with plain addresses stands for have
/// plain addresses.
proof fn lemma_resolved_are_plain(
    requests: Seq<RequestView>,
    has_key: bool,
    plaintexts: Seq<Option<Seq<u8>>>,
)
    requires
        requests_are_plain(requests),
        resolve_all_spec(requests, has_key, plaintexts) is Ok,
    ensures
        forall|i: int|
            0 <= i < resolve_all_spec(requests, has_key, plaintexts).unwrap().len()
                ==> crate::ledger::clear_is_plain(
                #[trigger] resolve_all_spec(requests, has_key, plaintexts).unwrap()[i],
            ),
    decreases requests.len(),
{
    if requests.len() > 0 {
        let init = requests.drop_last();
        assert(requests_are_plain(init)) by {
            assert forall|i: int| 0 <= i < init.len() implies crate::messages::request_is_plain(
                #[trigger] init[i],
            ) by {
                assert(init[i] == requests[i]);
            }
        }
        lemma_resolved_are_plain(init, has_key, plaintexts);
        let done = resolve_all_spec(init, has_key, plaintexts).unwrap();
        let last = requests.last();
        assert(crate::messages::request_is_plain(requests[requests.len() - 1]));
        let text = plaintexts[requests.len() - 1];
        let clear = resolve_spec(last, has_key, text).unwrap();
        if last is Transfer {
            crate::codec::lemma_read_transfer_is_plain(text.unwrap());
        }
        let all = done.push(clear);
        assert forall|i: int| 0 <= i < all.len() implies crate::ledger::clear_is_plain(
            #[trigger] all[i],
        ) by {
            if i < done.len() {
                assert(all[i] == done[i]);
            }
        }
    }
}

/// The state that a round leaves can be written and read again: where the round
/// starts from a state with plain addresses and its requests have plain
/// addresses, the text of the accounts that it leaves reads back as those
/// accounts.
pub proof fn lemma_round_leaves_a_readable_state(
    entries: Seq<EntrySpec>,
    requests: Seq<RequestView>,
    has_key: bool,
    plaintexts: Seq<Option<Seq<u8>>>,
    left: Seq<EntrySpec>,
)
    requires
        crate::balances::ascending(entries),
        crate::codec::keys_are_plain(entries),
        requests_are_plain(requests),
        fold_spec(entries, requests, has_key, plaintexts) is Ok,
        crate::balances::ascending(left),
        to_map(left) == fold_spec(entries, requests, has_key, plaintexts).unwrap().balances,
    ensures
        read_state_spec(crate::codec::state_json(left)) == Some(left),
{
    let start = Outcome { balances: to_map(entries), withdrawals: Seq::<Withdrawal>::empty() };
    let clear = resolve_all_spec(requests, has_key, plaintexts).unwrap();
    lemma_resolved_are_plain(requests, has_key, plaintexts);
    assert(crate::ledger::plain_keys(start.balances)) by {
        assert forall|k: Seq<u8>| start.balances.contains_key(k) implies is_plain_text(k) by {
            let i = crate::balances::index_of(entries, k);
            assert(entries[i].0 == k);
        }
    }
    crate::ledger::lemma_batch_keeps_keys_plain(start, clear);
    assert(crate::codec::keys_are_plain(left)) by {
        assert forall|i: int| 0 <= i < left.len() implies is_plain_text((#[trigger] left[i]).0) by {
            crate::balances::lemma_place(left, i);
        }
    }
    crate::codec::lemma_state_round_trip(left);
}

/// A batch whose sequence number lies behind what the enclave has seen is
/// refused as a replay, with a failed precondition, where its state opens: no
/// answer is attested and the enclave's number stays.
pub proof fn lemma_replay_is_refused<A: Attestor>(
    attestor: &A,
    local_seq: u64,
    msg: &UpdateRequestMessage,
    key: Option<Seq<u8>>,
    state_plain: Option<Seq<u8>>,
    plaintexts: Seq<Option<Seq<u8>>>,
    r: Result<Attested<UpdateMsg, Vec<u8>>, Error>,
    final_seq: u64,
)
    requires
        round_relation(attestor, local_seq, msg, key, state_plain, plaintexts, r, final_seq),
        open_spec(msg.state@, key.is_some(), state_plain) is Ok,
        msg.seq_num < local_seq + sequenced_count(request_views(msg.requests@)),
    ensures
        r matches Err(e) && e == Error::ReplayAttempted && crate::error::status_spec(e)
            == crate::error::Status::FailedPrecondition,
        final_seq == local_seq,
{
}

/// A batch with a sequenced request that was answered is refused as a replay
/// when it comes again, where its state opens again: the enclave's number is
/// the batch's after the first round and stays so after the second.
pub proof fn lemma_answered_batch_is_a_replay_next<A: Attestor>(
    attestor: &A,
    local_seq: u64,
    msg: &UpdateRequestMessage,
    key: Option<Seq<u8>>,
    first_state: Option<Seq<u8>>,
    first_plaintexts: Seq<Option<Seq<u8>>>,
    first: Result<Attested<UpdateMsg, Vec<u8>>, Error>,
    mid_seq: u64,
    second_state: Option<Seq<u8>>,
    second_plaintexts: Seq<Option<Seq<u8>>>,
    second: Result<Attested<UpdateMsg, Vec<u8>>, Error>,
    final_seq: u64,
)
    requires
        round_relation(attestor, local_seq, msg, key, first_state, first_plaintexts, first, mid_seq),
        first is Ok,
        round_relation(
            attestor,
            mid_seq,
            msg,
            key,
            second_state,
            second_plaintexts,
            second,
            final_seq,
        ),
        open_spec(msg.state@, key.is_some(), second_state) is Ok,
        sequenced_count(request_views(msg.requests@)) >= 1,
    ensures
        mid_seq == msg.seq_num,
        second matches Err(e) && e == Error::ReplayAttempted,
        final_seq == mid_seq,
{
}

/// A question about the state of a first round needs no session key: the
/// balance read is zero, and the answer, where the cipher and the attestor give
/// one, names the address that was asked for and holds a ciphertext long enough
/// for the text of a zero balance.
pub proof fn lemma_first_state_needs_no_key<A: Attestor>(
    attestor: &A,
    msg: &QueryRequestMessage,
    has_key: bool,
    state_plain: Option<Seq<u8>>,
    r: Result<Attested<QueryResponseMessage, Vec<u8>>, Error>,
)
    requires
        question_relation(attestor, msg, has_key, state_plain, r),
        msg.state@ == seq![0u8],
        is_plain_text(msg.address@),
        is_sec1_point(msg.ephemeral_pubkey@),
    ensures
        query_spec(msg.state@, msg.address@, msg.ephemeral_pubkey@, has_key, state_plain) == Ok::<
            u128,
            Error,
        >(0),
        r matches Ok(answer) ==> answer.msg@.address == msg.address@ && is_sealed_length(
            answer.msg@.encrypted_bal.len(),
            balance_json(0).len(),
        ),
        r matches Err(e) ==> e == Error::Encrypt || e == Error::Attestor,
{
    lemma_sentinel(msg.state@, has_key, state_plain);
    assert(to_map(Seq::<EntrySpec>::empty()) =~= Map::<Seq<u8>, u128>::empty());
}

/// The state that opens from a text has plain addresses in ascending order.
pub proof fn lemma_opened_state_is_valid(state: Seq<u8>, has_key: bool, plaintext: Option<Seq<u8>>)
    requires
        open_spec(state, has_key, plaintext) is Ok,
    ensures
        crate::balances::ascending(open_spec(state, has_key, plaintext).unwrap()),
        crate::codec::keys_are_plain(open_spec(state, has_key, plaintext).unwrap()),
{
    if classify_spec(state) == Ok::<StateSource, Error>(StateSource::Encrypted) {
        crate::codec::lemma_read_state_is_valid(plaintext.unwrap());
    }
}

} // verus!
