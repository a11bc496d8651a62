//! The clearing contract: the handshake's state, an owner, the epochs with their
//! containers, the setoffs of each epoch, and the token in which payments are
//! settled.

use vstd::prelude::*;
use vstd::string::*;
use crate::account::AccountId;
use crate::attested::{judge, verify_attested, Attestation, Attested, HasUserData};
use crate::balances::Balances;
use crate::bytes::{append_bytes, copy_bytes};
use crate::contract::{ContractError, ContractState, QuartzExecuteMsg};
use crate::crypto::{sha256, sha256_spec};
use crate::decimal::decimal_spec;
use crate::epoch::{
    obligation_spec, obligations_spec, sources_spec, ClearingError, EpochDataView, Epochs,
    SettleOff, State,
};
use crate::hex::encode_hex_spec;
use crate::instantiate::CoreInstantiate;
use crate::ledger::balance_of;
use crate::state::UserData;
use crate::wire::{
    join_texts, joined, json_string, pad_digest, push_decimal, push_hex, push_json_string,
    push_text, quoted, texts, user_data_of_digest,
};

verus! {

/// The token as values: what there is of it, who may mint it, and who holds what.
pub struct TokenView {
    pub total_supply: u128,
    pub minter: Seq<u8>,
    pub balances: Map<Seq<u8>, u128>,
}

/// The token in which payments are settled.
pub struct Token {
    total_supply: u128,
    minter: Vec<u8>,
    balances: Balances,
}

impl View for Token {
    type V = TokenView;

    closed spec fn view(&self) -> TokenView {
        TokenView {
            total_supply: self.total_supply,
            minter: self.minter@,
            balances: self.balances@,
        }
    }
}

impl Token {
    /// The accounts are well formed.
    pub closed spec fn wf(&self) -> bool {
        self.balances.wf()
    }

    /// What an address holds; an address without an account holds nothing.
    pub fn balance(&self, address: &[u8]) -> (r: u128)
        requires
            self.wf(),
        ensures
            r == balance_of(self@.balances, address@),
    {
        match self.balances.get(address) {
            Some(b) => b,
            None => 0,
        }
    }

    /// What there is of the token.
    pub fn total_supply(&self) -> (r: u128)
        ensures
            r == self@.total_supply,
    {
        self.total_supply
    }

    /// Who may mint the token.
    pub fn minter(&self) -> (r: &Vec<u8>)
        ensures
            r@ == self@.minter,
    {
        &self.minter
    }
}

/// A payment as values: who pays whom how much.
pub struct PaymentView {
    pub payer: Seq<u8>,
    pub payee: Seq<u8>,
    pub amount: u64,
}

/// A settlement as values.
pub enum SettleOffView {
    SetOff(Seq<Seq<u8>>),
    Transfer(PaymentView),
}

/// A settlement as values.
pub open spec fn settle_off_view(s: SettleOff) -> SettleOffView {
    match s {
        SettleOff::SetOff(list) => SettleOffView::SetOff(crate::wire::texts(list@)),
        SettleOff::Transfer(t) => SettleOffView::Transfer(
            PaymentView {
                payer: vstd::utf8::encode_utf8(t.payer@),
                payee: vstd::utf8::encode_utf8(t.payee@),
                amount: t.amount,
            },
        ),
    }
}

/// The setoffs of an epoch as values: each with the digest of its obligation.
pub open spec fn setoff_views(setoffs: Seq<(Vec<u8>, SettleOff)>) -> Seq<(Seq<u8>, SettleOffView)> {
    Seq::new(setoffs.len(), |i: int| (setoffs[i].0@, settle_off_view(setoffs[i].1)))
}

/// What minting does to the token: the amount is added to what the receiver
/// holds and to the supply, unless either would be more than 128 bits can say.
pub open spec fn mint_spec(token: TokenView, to: Seq<u8>, amount: u64) -> Result<
    TokenView,
    ClearingError,
> {
    let held = balance_of(token.balances, to);
    if held + amount > u128::MAX || token.total_supply + amount > u128::MAX {
        Err(ClearingError::Overflow)
    } else {
        Ok(
            TokenView {
                total_supply: (token.total_supply + amount) as u128,
                minter: token.minter,
                balances: token.balances.insert(to, (held + amount) as u128),
            },
        )
    }
}

/// What burning does to the token: the amount is taken from what the holder has
/// and from the supply. A holder of less than the amount cannot burn it.
pub open spec fn burn_spec(token: TokenView, from: Seq<u8>, amount: u64) -> Result<
    TokenView,
    ClearingError,
> {
    let held = balance_of(token.balances, from);
    if held < amount {
        Err(ClearingError::InsufficientFunds)
    } else if token.total_supply < amount {
        Err(ClearingError::Overflow)
    } else {
        Ok(
            TokenView {
                total_supply: (token.total_supply - amount) as u128,
                minter: token.minter,
                balances: token.balances.insert(from, (held - amount) as u128),
            },
        )
    }
}

/// What a payment does to the token: the amount is minted to the payee and then
/// burnt from the payer, so that the supply stays what it was. A payer that
/// holds less than the amount cannot pay.
pub open spec fn pay_spec(token: TokenView, payment: PaymentView) -> Result<TokenView, ClearingError> {
    match mint_spec(token, payment.payee, payment.amount) {
        Ok(minted) => burn_spec(minted, payment.payer, payment.amount),
        Err(e) => Err(e),
    }
}

/// What settling a list of setoffs does to the token: the payments among them are
/// made in order; the others move no tokens.
pub open spec fn settle_spec(token: TokenView, setoffs: Seq<(Seq<u8>, SettleOffView)>) -> Result<
    TokenView,
    ClearingError,
>
    decreases setoffs.len(),
{
    if setoffs.len() == 0 {
        Ok(token)
    } else {
        match settle_spec(token, setoffs.drop_last()) {
            Err(e) => Err(e),
            Ok(middle) => match setoffs.last().1 {
                SettleOffView::SetOff(_) => Ok(middle),
                SettleOffView::Transfer(payment) => pay_spec(middle, payment),
            },
        }
    }
}

/// Settling keeps the supply and the minter of the token.
pub proof fn lemma_settling_keeps_the_supply(token: TokenView, setoffs: Seq<(Seq<u8>, SettleOffView)>)
    requires
        settle_spec(token, setoffs) is Ok,
    ensures
        settle_spec(token, setoffs).unwrap().total_supply == token.total_supply,
        settle_spec(token, setoffs).unwrap().minter == token.minter,
    decreases setoffs.len(),
{
    if setoffs.len() > 0 {
        lemma_settling_keeps_the_supply(token, setoffs.drop_last());
    }
}

/// A payment between two different accounts moves the amount from the payer to
/// the payee.
pub proof fn lemma_payment_moves_the_amount(token: TokenView, payment: PaymentView)
    requires
        pay_spec(token, payment) is Ok,
        payment.payer != payment.payee,
    ensures
        balance_of(pay_spec(token, payment).unwrap().balances, payment.payee) == balance_of(
            token.balances,
            payment.payee,
        ) + payment.amount,
        balance_of(pay_spec(token, payment).unwrap().balances, payment.payer) == balance_of(
            token.balances,
            payment.payer,
        ) - payment.amount,
{
}

/// A payer that holds the amount can pay it, unless the payee or the supply would
/// hold more than 128 bits can say.
pub proof fn lemma_payment_is_made(token: TokenView, payment: PaymentView)
    requires
        balance_of(token.balances, payment.payer) >= payment.amount,
        balance_of(token.balances, payment.payee) + payment.amount <= u128::MAX,
        token.total_supply + payment.amount <= u128::MAX,
    ensures
        pay_spec(token, payment) is Ok,
{
}

/// Once a prefix of the setoffs cannot be settled, the setoffs cannot.
proof fn lemma_settle_failure_stays(
    token: TokenView,
    setoffs: Seq<(Seq<u8>, SettleOffView)>,
    k: int,
)
    requires
        0 <= k <= setoffs.len(),
        settle_spec(token, setoffs.subrange(0, k)) is Err,
    ensures
        settle_spec(token, setoffs) == settle_spec(token, setoffs.subrange(0, k)),
    decreases setoffs.len() - k,
{
    if k == setoffs.len() {
        assert(setoffs.subrange(0, k) =~= setoffs);
    } else {
        let next = setoffs.subrange(0, k + 1);
        assert(next.drop_last() =~= setoffs.subrange(0, k));
        lemma_settle_failure_stays(token, setoffs, k + 1);
    }
}

/// Makes one payment on the accounts.
fn pay(balances: &mut Balances, total_supply: u128, payer: &[u8], payee: &[u8], amount: u64) -> (r:
    Result<(), ClearingError>)
    requires
        old(balances).wf(),
    ensures
        final(balances).wf(),
        match pay_spec(
            TokenView { total_supply, minter: Seq::<u8>::empty(), balances: old(balances)@ },
            PaymentView { payer: payer@, payee: payee@, amount },
        ) {
            Ok(after) => r is Ok && final(balances)@ == after.balances,
            Err(e) => r == Err::<(), ClearingError>(e),
        },
{
    let held: u128 = match balances.get(payee) {
        Some(b) => b,
        None => 0,
    };
    let minted = match held.checked_add(amount as u128) {
        Some(m) => m,
        None => {
            return Err(ClearingError::Overflow);
        },
    };
    if total_supply.checked_add(amount as u128).is_none() {
        return Err(ClearingError::Overflow);
    }
    balances.set(payee, minted);
    let left: u128 = match balances.get(payer) {
        Some(b) => b,
        None => 0,
    };
    if left < amount as u128 {
        return Err(ClearingError::InsufficientFunds);
    }
    balances.set(payer, left - amount as u128);
    Ok(())
}

/// What a transfer between holders does to the token: the amount leaves the
/// sender, who must hold it, and reaches the recipient. The supply stays.
pub open spec fn transfer_spec(token: TokenView, from: Seq<u8>, to: Seq<u8>, amount: u64) -> Result<
    TokenView,
    ClearingError,
> {
    let held = balance_of(token.balances, from);
    if held < amount {
        Err(ClearingError::InsufficientFunds)
    } else {
        let taken = token.balances.insert(from, (held - amount) as u128);
        let got = balance_of(taken, to);
        if got + amount > u128::MAX {
            Err(ClearingError::Overflow)
        } else {
            Ok(
                TokenView {
                    total_supply: token.total_supply,
                    minter: token.minter,
                    balances: taken.insert(to, (got + amount) as u128),
                },
            )
        }
    }
}

/// The hex texts of a list of byte strings, each between double quotes.
pub open spec fn hex_strings(list: Seq<Seq<u8>>) -> Seq<Seq<u8>> {
    Seq::new(list.len(), |i: int| quoted(encode_hex_spec(list[i])))
}

/// The JSON text of a settlement: a list of hex texts, or a payment.
pub open spec fn settle_off_json(s: SettleOffView) -> Seq<u8> {
    match s {
        SettleOffView::SetOff(list) => "[".spec_bytes() + joined(hex_strings(list))
            + "]".spec_bytes(),
        SettleOffView::Transfer(p) => "{\"payer\":".spec_bytes() + json_string(p.payer)
            + ",\"payee\":".spec_bytes() + json_string(p.payee) + ",\"amount\":".spec_bytes()
            + decimal_spec(p.amount as nat) + "}".spec_bytes(),
    }
}

/// The JSON text of a settlement under the digest of its obligation.
pub open spec fn setoff_entry_json(entry: (Seq<u8>, SettleOffView)) -> Seq<u8> {
    quoted(encode_hex_spec(entry.0)) + ":".spec_bytes() + settle_off_json(entry.1)
}

/// The JSON texts of the setoffs of an epoch.
pub open spec fn setoff_entries(setoffs: Seq<(Seq<u8>, SettleOffView)>) -> Seq<Seq<u8>> {
    Seq::new(setoffs.len(), |i: int| setoff_entry_json(setoffs[i]))
}

/// The JSON text of the message that submits the setoffs of an epoch, which its
/// report data is the digest of.
pub open spec fn setoffs_json(setoffs: Seq<(Seq<u8>, SettleOffView)>) -> Seq<u8> {
    "{\"setoffs_enc\":{".spec_bytes() + joined(setoff_entries(setoffs)) + "}}".spec_bytes()
}

/// Writes the JSON text of a settlement.
fn settle_off_to_json(s: &SettleOff) -> (r: Vec<u8>)
    ensures
        r@ == settle_off_json(settle_off_view(*s)),
{
    let mut out: Vec<u8> = Vec::new();
    match s {
        SettleOff::SetOff(list) => {
            let mut items: Vec<Vec<u8>> = Vec::new();
            let mut i: usize = 0;
            while i < list.len()
                invariant
                    i <= list.len(),
                    items@.len() == i,
                    forall|j: int|
                        0 <= j < i ==> (#[trigger] items@[j])@ == quoted(
                            encode_hex_spec(list@[j]@),
                        ),
                decreases list.len() - i,
            {
                let mut item: Vec<u8> = Vec::new();
                push_hex(&mut item, list[i].as_slice());
                proof {
                    assert(item@ =~= quoted(encode_hex_spec(list@[i as int]@)));
                }
                items.push(item);
                i += 1;
            }
            let body = join_texts(&items);
            proof {
                assert(texts(items@) =~= hex_strings(texts(list@)));
            }
            push_text(&mut out, "[");
            append_bytes(&mut out, body.as_slice());
            push_text(&mut out, "]");
            proof {
                assert(out@ =~= settle_off_json(settle_off_view(*s)));
            }
        },
        SettleOff::Transfer(t) => {
            push_text(&mut out, "{\"payer\":");
            push_json_string(&mut out, t.payer.as_str().as_bytes());
            push_text(&mut out, ",\"payee\":");
            push_json_string(&mut out, t.payee.as_str().as_bytes());
            push_text(&mut out, ",\"amount\":");
            push_decimal(&mut out, t.amount as u128);
            push_text(&mut out, "}");
            proof {
                assert(out@ =~= settle_off_json(settle_off_view(*s)));
            }
        },
    }
    out
}

/// The message with which the enclave submits the setoffs of an epoch, each
/// under the digest of its obligation.
pub struct SubmitSetoffsMsg {
    pub setoffs_enc: Vec<(Vec<u8>, SettleOff)>,
}

impl SubmitSetoffsMsg {
    /// The JSON text of the message.
    pub fn to_json(&self) -> (r: Vec<u8>)
        ensures
            r@ == setoffs_json(setoff_views(self.setoffs_enc@)),
    {
        let ghost views = setoff_views(self.setoffs_enc@);
        let mut items: Vec<Vec<u8>> = Vec::new();
        let mut i: usize = 0;
        while i < self.setoffs_enc.len()
            invariant
                i <= self.setoffs_enc.len(),
                views == setoff_views(self.setoffs_enc@),
                items@.len() == i,
                forall|j: int| 0 <= j < i ==> (#[trigger] items@[j])@ == setoff_entry_json(views[j]),
            decreases self.setoffs_enc.len() - i,
        {
            let mut item: Vec<u8> = Vec::new();
            push_hex(&mut item, self.setoffs_enc[i].0.as_slice());
            push_text(&mut item, ":");
            let body = settle_off_to_json(&self.setoffs_enc[i].1);
            append_bytes(&mut item, body.as_slice());
            proof {
                assert(item@ =~= setoff_entry_json(views[i as int]));
            }
            items.push(item);
            i += 1;
        }
        let body = join_texts(&items);
        proof {
            assert(texts(items@) =~= setoff_entries(views));
        }
        let mut out: Vec<u8> = Vec::new();
        push_text(&mut out, "{\"setoffs_enc\":{");
        append_bytes(&mut out, body.as_slice());
        push_text(&mut out, "}}");
        proof {
            assert(out@ =~= setoffs_json(views));
        }
        out
    }
}

impl HasUserData for SubmitSetoffsMsg {
    open spec fn user_data_spec(&self) -> Seq<u8> {
        pad_digest(sha256_spec(setoffs_json(setoff_views(self.setoffs_enc@))))
    }

    fn user_data(&self) -> (r: UserData) {
        let json = self.to_json();
        let digest = sha256(json.as_slice());
        user_data_of_digest(&digest)
    }
}

/// The obligations of a message as values: each with its ciphertext and its
/// digest.
pub open spec fn obligation_views(list: Seq<(Vec<u8>, Vec<u8>)>) -> Seq<(Seq<u8>, Seq<u8>)> {
    Seq::new(list.len(), |i: int| (list[i].0@, list[i].1@))
}

/// What storing obligations and adding liquidity sources in one message does to
/// the epochs: where one of them is refused, nothing is stored.
pub open spec fn submit_obligations_spec(
    epochs: Seq<EpochDataView>,
    obligations: Seq<(Seq<u8>, Seq<u8>)>,
    sources: Seq<Seq<u8>>,
) -> Result<Seq<EpochDataView>, ClearingError> {
    match obligations_spec(epochs, obligations) {
        Err(e) => Err(e),
        Ok(stored) => sources_spec(stored, sources),
    }
}

/// Once some of the first obligations cannot be stored, the obligations cannot.
proof fn lemma_obligations_failure_stays(
    epochs: Seq<EpochDataView>,
    obligations: Seq<(Seq<u8>, Seq<u8>)>,
    k: int,
)
    requires
        0 <= k <= obligations.len(),
        obligations_spec(epochs, obligations.subrange(0, k)) is Err,
    ensures
        obligations_spec(epochs, obligations) == obligations_spec(
            epochs,
            obligations.subrange(0, k),
        ),
    decreases obligations.len() - k,
{
    if k == obligations.len() {
        assert(obligations.subrange(0, k) =~= obligations);
    } else {
        assert(obligations.subrange(0, k + 1).drop_last() =~= obligations.subrange(0, k));
        lemma_obligations_failure_stays(epochs, obligations, k + 1);
    }
}

/// The messages that the clearing contract takes.
pub enum ExecuteMsg<A> {
    /// A message of the handshake.
    Quartz(QuartzExecuteMsg<A>),
    /// Mint tokens to a recipient.
    FaucetMint { recipient: String, amount: u64 },
    /// Move tokens from the sender to a recipient.
    Transfer { sender: String, recipient: String, amount: u64 },
    /// Store one obligation.
    SubmitObligation { ciphertext: Vec<u8>, digest: Vec<u8> },
    /// Store obligations, each given as its ciphertext and its digest, and add
    /// liquidity sources.
    SubmitObligations { obligations: Vec<(Vec<u8>, Vec<u8>)>, liquidity_sources: Vec<Vec<u8>> },
    /// Keep and settle the setoffs that the enclave attests.
    SubmitSetoffs(Attested<SubmitSetoffsMsg, A>),
    /// Start the next epoch.
    InitClearing,
}

/// The clearing contract.
pub struct ClearingContract {
    /// The handshake's state.
    pub quartz: ContractState,
    /// Who owns the contract.
    pub state: State,
    /// The epochs with their obligations and liquidity sources.
    pub epochs: Epochs,
    /// The setoffs that are kept, by the number of their epoch, from zero on.
    pub setoffs: Vec<Option<Vec<(Vec<u8>, SettleOff)>>>,
    /// The token in which payments are settled.
    pub token: Token,
}

impl ClearingContract {
    /// The setoffs that are kept, by the number of their epoch, from zero on.
    pub open spec fn setoffs_kept(&self) -> Seq<Option<Seq<(Seq<u8>, SettleOffView)>>> {
        Seq::new(
            self.setoffs@.len(),
            |i: int|
                match self.setoffs@[i] {
                    Some(list) => Some(setoff_views(list@)),
                    None => None,
                },
        )
    }

    /// The token.
    pub open spec fn token_view(&self) -> TokenView {
        self.token@
    }

    /// The epochs are well formed, there is a place for the setoffs of every epoch
    /// before the current one, from zero on, and the token's accounts are well
    /// formed.
    pub open spec fn wf(&self) -> bool {
        &&& self.epochs.wf()
        &&& self.setoffs_kept().len() == self.epochs.counter()
        &&& self.token_wf()
    }

    /// The token's accounts are well formed.
    pub open spec fn token_wf(&self) -> bool {
        self.token.wf()
    }

    /// Instantiates the contract for the enclave whose attested configuration is
    /// handed in. Where the attestation is accepted, `sender` owns the contract,
    /// the first epoch has empty containers, and the token has no supply and the
    /// contract as its minter. Where it is not, there is no contract.
    pub fn instantiate<A: HasUserData + Attestation>(
        address: AccountId,
        sender: String,
        attested: &Attested<CoreInstantiate, A>,
        genuine: bool,
    ) -> (r: Result<ClearingContract, ClearingError>)
        ensures
            match judge(
                genuine,
                attested.attestation.user_data_spec(),
                attested.attestation.mr_enclave_spec(),
                attested.msg.user_data_spec(),
                attested.msg@.mr_enclave,
            ) {
                Ok(()) => r matches Ok(c) && {
                    &&& c.wf()
                    &&& c.state.owner@ == sender@
                    &&& c.quartz.address() == address@
                    &&& c.quartz.expected_mr_enclave() == attested.msg@.mr_enclave
                    &&& c.quartz.session() is None
                    &&& c.quartz.epoch() == 1
                    &&& c.epochs.counter() == 1
                    &&& c.epochs@[0].obligations.len() == 0
                    &&& c.epochs@[0].liquidity_sources.len() == 0
                    &&& c.setoffs_kept() == seq![None::<Seq<(Seq<u8>, SettleOffView)>>]
                    &&& c.token_view() == (TokenView {
                        total_supply: 0,
                        minter: address@,
                        balances: Map::<Seq<u8>, u128>::empty(),
                    })
                },
                Err(why) => r matches Err(e) && e == ClearingError::AttestationRejected(why),
            },
    {
        let expected = attested.msg.mr_enclave();
        match verify_attested(attested, genuine, &expected) {
            Ok(()) => {},
            Err(why) => {
                return Err(ClearingError::AttestationRejected(why));
            },
        }
        let minter = copy_bytes(address.as_bytes());
        let mut setoffs: Vec<Option<Vec<(Vec<u8>, SettleOff)>>> = Vec::new();
        setoffs.push(None);
        let c = ClearingContract {
            quartz: ContractState::new(address, expected),
            state: State { owner: sender },
            epochs: Epochs::new(),
            setoffs,
            token: Token { total_supply: 0, minter, balances: Balances::new() },
        };
        proof {
            assert(c.setoffs_kept() =~= seq![None::<Seq<(Seq<u8>, SettleOffView)>>]);
        }
        Ok(c)
    }

    /// Mints `amount` of the token to `recipient`, as the contract itself may.
    pub fn faucet_mint(&mut self, recipient: &str, amount: u64) -> (r: Result<(), ClearingError>)
        requires
            old(self).wf(),
        ensures
            final(self).wf(),
            final(self).quartz == old(self).quartz,
            final(self).state == old(self).state,
            final(self).epochs == old(self).epochs,
            final(self).setoffs_kept() == old(self).setoffs_kept(),
            match mint_spec(old(self).token_view(), vstd::utf8::encode_utf8(recipient@), amount) {
                Ok(after) => r is Ok && final(self).token_view() == after,
                Err(e) => r == Err::<(), ClearingError>(e) && final(self).token_view() == old(self).token_view(),
            },
    {
        let to = recipient.as_bytes();
        let held: u128 = self.token.balance(to);
        let more = match held.checked_add(amount as u128) {
            Some(m) => m,
            None => {
                return Err(ClearingError::Overflow);
            },
        };
        let supply = match self.token.total_supply.checked_add(amount as u128) {
            Some(s) => s,
            None => {
                return Err(ClearingError::Overflow);
            },
        };
        self.token.balances.set(to, more);
        self.token.total_supply = supply;
        Ok(())
    }

    /// The token.
    pub fn token_ref(&self) -> (r: &Token)
        ensures
            r@ == self.token_view(),
            r.wf() == self.token_wf(),
    {
        &self.token
    }

    /// Starts the next epoch: its containers are empty and no setoffs are kept for
    /// the epoch that ends.
    pub fn init_clearing(&mut self) -> (r: Result<(), ClearingError>)
        requires
            old(self).wf(),
        ensures
            final(self).wf(),
            final(self).quartz == old(self).quartz,
            final(self).state == old(self).state,
            final(self).token_view() == old(self).token_view(),
            old(self).epochs.counter() < u64::MAX ==> {
                &&& r is Ok
                &&& final(self).epochs.counter() == old(self).epochs.counter() + 1
                &&& final(self).epochs@.subrange(0, old(self).epochs.counter() as int) == old(self).epochs@
                &&& final(self).epochs@.last().obligations.len() == 0
                &&& final(self).epochs@.last().liquidity_sources.len() == 0
                &&& final(self).setoffs_kept() == old(self).setoffs_kept().push(None)
            },
            old(self).epochs.counter() >= u64::MAX ==> {
                &&& r == Err::<(), ClearingError>(ClearingError::EpochOverflow)
                &&& final(self).epochs@ == old(self).epochs@
                &&& final(self).setoffs_kept() == old(self).setoffs_kept()
            },
    {
        match self.epochs.init_clearing() {
            Ok(()) => {
                self.setoffs.push(None);
                proof {
                    assert(self.setoffs_kept() =~= old(self).setoffs_kept().push(None));
                }
                Ok(())
            },
            Err(e) => Err(ClearingError::EpochOverflow),
        }
    }

    /// Keeps the setoffs of the epoch before the current one and settles their
    /// payments in the token. Where a payment cannot be made, nothing is kept and
    /// nothing is paid.
    pub fn submit_setoffs(&mut self, setoffs_enc: Vec<(Vec<u8>, SettleOff)>) -> (r: Result<
        (),
        ClearingError,
    >)
        requires
            old(self).wf(),
        ensures
            final(self).wf(),
            final(self).quartz == old(self).quartz,
            final(self).state == old(self).state,
            final(self).epochs == old(self).epochs,
            match settle_spec(old(self).token_view(), setoff_views(setoffs_enc@)) {
                Ok(after) => r is Ok && final(self).token_view() == after && final(self).setoffs_kept() == old(self).setoffs_kept().update(
                    old(self).epochs.counter() - 1,
                    Some(setoff_views(setoffs_enc@)),
                ),
                Err(e) => r == Err::<(), ClearingError>(e) && final(self).token_view() == old(self).token_view() && final(self).setoffs_kept() == old(self).setoffs_kept(),
            },
    {
        let ghost views = setoff_views(setoffs_enc@);
        let ghost start = self.token_view();
        let supply = self.token.total_supply;
        let mut balances = self.token.balances.duplicate();
        let mut i: usize = 0;
        proof {
            assert(views.subrange(0, 0) =~= Seq::<(Seq<u8>, SettleOffView)>::empty());
        }
        while i < setoffs_enc.len()
            invariant
                i <= setoffs_enc.len(),
                views == setoff_views(setoffs_enc@),
                *self == *old(self),
                self.wf(),
                start == self.token_view(),
                balances.wf(),
                start.total_supply == supply,
                settle_spec(start, views.subrange(0, i as int)) == Ok::<TokenView, ClearingError>(
                    TokenView {
                        total_supply: supply,
                        minter: start.minter,
                        balances: balances@,
                    },
                ),
            decreases setoffs_enc.len() - i,
        {
            proof {
                let next = views.subrange(0, i + 1);
                assert(next.drop_last() =~= views.subrange(0, i as int));
                assert(next.last() == views[i as int]);
                assert(views[i as int].1 == settle_off_view(setoffs_enc@[i as int].1));
            }
            match &setoffs_enc[i].1 {
                SettleOff::SetOff(_) => {},
                SettleOff::Transfer(t) => {
                    match pay(
                        &mut balances,
                        supply,
                        t.payer.as_str().as_bytes(),
                        t.payee.as_str().as_bytes(),
                        t.amount,
                    ) {
                        Ok(()) => {},
                        Err(e) => {
                            proof {
                                lemma_settle_failure_stays(start, views, i + 1);
                            }
                            return Err(e);
                        },
                    }
                },
            }
            i += 1;
        }
        proof {
            assert(views.subrange(0, i as int) =~= views);
        }
        let place = self.setoffs.len() - 1;
        let ghost kept = self.setoffs_kept();
        self.token.balances = balances;
        self.setoffs[place] = Some(setoffs_enc);
        proof {
            assert(self.setoffs_kept() =~= kept.update(place as int, Some(views)));
        }
        Ok(())
    }

    /// Moves `amount` of the token from `sender` to `recipient`.
    pub fn transfer(&mut self, sender: &str, recipient: &str, amount: u64) -> (r: Result<
        (),
        ClearingError,
    >)
        requires
            old(self).wf(),
        ensures
            final(self).wf(),
            final(self).quartz == old(self).quartz,
            final(self).state == old(self).state,
            final(self).epochs == old(self).epochs,
            final(self).setoffs_kept() == old(self).setoffs_kept(),
            match transfer_spec(
                old(self).token_view(),
                vstd::utf8::encode_utf8(sender@),
                vstd::utf8::encode_utf8(recipient@),
                amount,
            ) {
                Ok(after) => r is Ok && final(self).token_view() == after,
                Err(e) => r == Err::<(), ClearingError>(e) && final(self).token_view() == old(self).token_view(),
            },
    {
        let from = sender.as_bytes();
        let to = recipient.as_bytes();
        let held: u128 = self.token.balance(from);
        if held < amount as u128 {
            return Err(ClearingError::InsufficientFunds);
        }
        let mut balances = self.token.balances.duplicate();
        balances.set(from, held - amount as u128);
        let got: u128 = match balances.get(to) {
            Some(b) => b,
            None => 0,
        };
        let more = match got.checked_add(amount as u128) {
            Some(m) => m,
            None => {
                return Err(ClearingError::Overflow);
            },
        };
        balances.set(to, more);
        self.token.balances = balances;
        Ok(())
    }

    /// Stores obligations and adds liquidity sources to the current epoch. Where
    /// one of them is refused, nothing is stored.
    pub fn submit_obligations(
        &mut self,
        obligations: Vec<(Vec<u8>, Vec<u8>)>,
        liquidity_sources: Vec<Vec<u8>>,
    ) -> (r: Result<(), ClearingError>)
        requires
            old(self).wf(),
        ensures
            final(self).wf(),
            final(self).quartz == old(self).quartz,
            final(self).state == old(self).state,
            final(self).setoffs_kept() == old(self).setoffs_kept(),
            final(self).token_view() == old(self).token_view(),
            match submit_obligations_spec(
                old(self).epochs@,
                obligation_views(obligations@),
                texts(liquidity_sources@),
            ) {
                Ok(after) => r is Ok && final(self).epochs@ == after,
                Err(e) => r == Err::<(), ClearingError>(e) && final(self).epochs == old(self).epochs,
            },
    {
        let ghost views = obligation_views(obligations@);
        let ghost start = self.epochs@;
        let mut epochs = self.epochs.duplicate();
        let mut i: usize = 0;
        proof {
            assert(views.subrange(0, 0) =~= Seq::<(Seq<u8>, Seq<u8>)>::empty());
        }
        while i < obligations.len()
            invariant
                i <= obligations.len(),
                views == obligation_views(obligations@),
                *self == *old(self),
                self.wf(),
                start == self.epochs@,
                epochs.wf(),
                epochs.counter() == start.len(),
                obligations_spec(start, views.subrange(0, i as int)) == Ok::<
                    Seq<EpochDataView>,
                    ClearingError,
                >(epochs@),
            decreases obligations.len() - i,
        {
            proof {
                assert(views.subrange(0, i + 1).drop_last() =~= views.subrange(0, i as int));
                assert(views.subrange(0, i + 1).last() == views[i as int]);
            }
            let ciphertext = copy_bytes(obligations[i].0.as_slice());
            let digest = copy_bytes(obligations[i].1.as_slice());
            match epochs.submit_obligation(ciphertext, digest) {
                Ok(()) => {},
                Err(e) => {
                    proof {
                        lemma_obligations_failure_stays(start, views, i + 1);
                    }
                    return Err(e);
                },
            }
            i += 1;
        }
        proof {
            assert(views.subrange(0, i as int) =~= views);
        }
        match epochs.append_liquidity_sources(liquidity_sources) {
            Ok(()) => {},
            Err(e) => {
                return Err(e);
            },
        }
        self.epochs = epochs;
        Ok(())
    }

    /// Takes a message: chooses its handler, and lets the enclave's setoffs in
    /// only with an attestation that is accepted. A message that is refused
    /// leaves the contract as it was.
    pub fn execute<A: HasUserData + Attestation>(&mut self, msg: ExecuteMsg<A>, genuine: bool) -> (r:
        Result<(), ClearingError>)
        requires
            old(self).wf(),
        ensures
            final(self).wf(),
            final(self).state == old(self).state,
            final(self).quartz.address() == old(self).quartz.address(),
            final(self).quartz.expected_mr_enclave() == old(self).quartz.expected_mr_enclave(),
            final(self).quartz.epoch() == old(self).quartz.epoch(),
            match msg {
                ExecuteMsg::Quartz(m) => {
                    &&& final(self).epochs == old(self).epochs
                    &&& final(self).setoffs_kept() == old(self).setoffs_kept()
                    &&& final(self).token_view() == old(self).token_view()
                    &&& match old(self).quartz.quartz_spec(&m, genuine) {
                        Ok(session) => r is Ok && final(self).quartz.session() == Some(session),
                        Err(e) => r == Err::<(), ClearingError>(ClearingError::Handshake(e))
                            && final(self).quartz.session() == old(self).quartz.session(),
                    }
                },
                ExecuteMsg::FaucetMint { recipient, amount } => {
                    &&& final(self).quartz == old(self).quartz
                    &&& final(self).epochs == old(self).epochs
                    &&& final(self).setoffs_kept() == old(self).setoffs_kept()
                    &&& match mint_spec(
                        old(self).token_view(),
                        vstd::utf8::encode_utf8(recipient@),
                        amount,
                    ) {
                        Ok(after) => r is Ok && final(self).token_view() == after,
                        Err(e) => r == Err::<(), ClearingError>(e) && final(self).token_view()
                            == old(self).token_view(),
                    }
                },
                ExecuteMsg::Transfer { sender, recipient, amount } => {
                    &&& final(self).quartz == old(self).quartz
                    &&& final(self).epochs == old(self).epochs
                    &&& final(self).setoffs_kept() == old(self).setoffs_kept()
                    &&& match transfer_spec(
                        old(self).token_view(),
                        vstd::utf8::encode_utf8(sender@),
                        vstd::utf8::encode_utf8(recipient@),
                        amount,
                    ) {
                        Ok(after) => r is Ok && final(self).token_view() == after,
                        Err(e) => r == Err::<(), ClearingError>(e) && final(self).token_view()
                            == old(self).token_view(),
                    }
                },
                ExecuteMsg::SubmitObligation { ciphertext, digest } => {
                    &&& final(self).quartz == old(self).quartz
                    &&& final(self).setoffs_kept() == old(self).setoffs_kept()
                    &&& final(self).token_view() == old(self).token_view()
                    &&& match obligation_spec(old(self).epochs@, ciphertext@, digest@) {
                        Ok(after) => r is Ok && final(self).epochs@ == after,
                        Err(e) => r == Err::<(), ClearingError>(e) && final(self).epochs@ == old(self).epochs@,
                    }
                },
                ExecuteMsg::SubmitObligations { obligations, liquidity_sources } => {
                    &&& final(self).quartz == old(self).quartz
                    &&& final(self).setoffs_kept() == old(self).setoffs_kept()
                    &&& final(self).token_view() == old(self).token_view()
                    &&& match submit_obligations_spec(
                        old(self).epochs@,
                        obligation_views(obligations@),
                        texts(liquidity_sources@),
                    ) {
                        Ok(after) => r is Ok && final(self).epochs@ == after,
                        Err(e) => r == Err::<(), ClearingError>(e) && final(self).epochs == old(self).epochs,
                    }
                },
                ExecuteMsg::SubmitSetoffs(attested) => {
                    &&& final(self).quartz == old(self).quartz
                    &&& final(self).epochs == old(self).epochs
                    &&& match old(self).quartz.accepts(&attested, genuine) {
                        Err(why) => r == Err::<(), ClearingError>(
                            ClearingError::AttestationRejected(why),
                        ) && *final(self) == *old(self),
                        Ok(()) => match settle_spec(
                            old(self).token_view(),
                            setoff_views(attested.msg.setoffs_enc@),
                        ) {
                            Ok(after) => r is Ok && final(self).token_view() == after && final(self).setoffs_kept() == old(self).setoffs_kept().update(
                                old(self).epochs.counter() - 1,
                                Some(setoff_views(attested.msg.setoffs_enc@)),
                            ),
                            Err(e) => r == Err::<(), ClearingError>(e) && final(self).token_view()
                                == old(self).token_view() && final(self).setoffs_kept() == old(self).setoffs_kept(),
                        },
                    }
                },
                ExecuteMsg::InitClearing => {
                    &&& final(self).quartz == old(self).quartz
                    &&& final(self).token_view() == old(self).token_view()
                    &&& if old(self).epochs.counter() < u64::MAX {
                        &&& r is Ok
                        &&& final(self).epochs.counter() == old(self).epochs.counter() + 1
                        &&& final(self).epochs@.subrange(0, old(self).epochs.counter() as int)
                            == old(self).epochs@
                        &&& final(self).epochs@.last().obligations.len() == 0
                        &&& final(self).epochs@.last().liquidity_sources.len() == 0
                        &&& final(self).setoffs_kept() == old(self).setoffs_kept().push(None)
                    } else {
                        &&& r == Err::<(), ClearingError>(ClearingError::EpochOverflow)
                        &&& final(self).epochs@ == old(self).epochs@
                        &&& final(self).setoffs_kept() == old(self).setoffs_kept()
                    }
                },
            },
    {
        match msg {
            ExecuteMsg::Quartz(m) => match self.quartz.handle_quartz(m, genuine) {
                Ok(()) => Ok(()),
                Err(e) => Err(ClearingError::Handshake(e)),
            },
            ExecuteMsg::FaucetMint { recipient, amount } => self.faucet_mint(
                recipient.as_str(),
                amount,
            ),
            ExecuteMsg::Transfer { sender, recipient, amount } => self.transfer(
                sender.as_str(),
                recipient.as_str(),
                amount,
            ),
            ExecuteMsg::SubmitObligation { ciphertext, digest } => self.epochs.submit_obligation(
                ciphertext,
                digest,
            ),
            ExecuteMsg::SubmitObligations { obligations, liquidity_sources } => {
                self.submit_obligations(obligations, liquidity_sources)
            },
            ExecuteMsg::SubmitSetoffs(attested) => {
                match self.quartz.check_attested(&attested, genuine) {
                    Ok(()) => {},
                    Err(ContractError::AttestationRejected(why)) => {
                        return Err(ClearingError::AttestationRejected(why));
                    },
                    Err(other) => {
                        return Err(ClearingError::Handshake(other));
                    },
                }
                let (msg, _) = attested.into_tuple();
                self.submit_setoffs(msg.setoffs_enc)
            },
            ExecuteMsg::InitClearing => self.init_clearing(),
        }
    }

    /// The setoffs that were kept for the epoch before the current one.
    pub fn get_all_setoffs(&self) -> (r: Result<&Vec<(Vec<u8>, SettleOff)>, ClearingError>)
        requires
            self.wf(),
        ensures
            match self.setoffs_kept().last() {
                Some(kept) => r matches Ok(v) && setoff_views(v@) == kept,
                None => r matches Err(e) && e == ClearingError::NoSuchEpoch,
            },
    {
        match &self.setoffs[self.setoffs.len() - 1] {
            Some(kept) => Ok(kept),
            None => Err(ClearingError::NoSuchEpoch),
        }
    }
}

} // verus!
