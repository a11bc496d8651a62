//! The messages of the transfers application: what the ledger hands to the
//! enclave, what the enclave answers, and the JSON text of each.

use vstd::prelude::*;
use vstd::string::*;
use crate::attested::{HasDomainType, HasUserData};
use crate::crypto::{sha256, sha256_spec};
use crate::decimal::decimal_spec;
use crate::bytes::{lemma_cancel_head, lemma_cancel_tail, lemma_split_same};
use crate::codec::{lemma_amount_at, lemma_joined_first, lemma_quoted_at};
use crate::decimal::{is_digit, lemma_decimal_round_trip};
use crate::hex::{
    decode_hex, decode_hex_spec, encode_hex, encode_hex_spec, lemma_hex_digits,
    lemma_hex_round_trip,
};
use crate::state::StdError;
use crate::ledger::{withdrawal_views, Withdrawal};
use crate::state::UserData;
use crate::wire::{
    check_plain_text, is_plain_text, join_texts, joined, json_string, lemma_same_string,
    pad_digest, push_decimal, push_hex, push_json_string, push_quoted, push_text, quoted, texts,
    user_data_of_digest,
};

verus! {

/// A request as the ledger stores it, as values.
pub enum RequestView {
    /// A transfer, encrypted to the enclave.
    Transfer(Seq<u8>),
    /// The address asks to be paid out.
    Withdraw(Seq<u8>),
    /// The address paid the amount in.
    Deposit(Seq<u8>, u128),
}

/// A request as the ledger stores it.
pub enum Request {
    /// A transfer, encrypted to the enclave.
    Transfer(Vec<u8>),
    /// The address asks to be paid out.
    Withdraw(Vec<u8>),
    /// The address paid the amount in.
    Deposit(Vec<u8>, u128),
}

impl View for Request {
    type V = RequestView;

    open spec fn view(&self) -> RequestView {
        match *self {
            Request::Transfer(ciphertext) => RequestView::Transfer(ciphertext@),
            Request::Withdraw(address) => RequestView::Withdraw(address@),
            Request::Deposit(address, amount) => RequestView::Deposit(address@, amount),
        }
    }
}

/// The views of a list of requests.
pub open spec fn request_views(requests: Seq<Request>) -> Seq<RequestView> {
    Seq::new(requests.len(), |i: int| requests[i]@)
}

/// Whether a request counts against the sequence number: the transfers do.
pub open spec fn is_sequenced(request: RequestView) -> bool {
    request is Transfer
}

/// How many requests of a batch count against the sequence number.
pub open spec fn sequenced_count(requests: Seq<RequestView>) -> nat
    decreases requests.len(),
{
    if requests.len() == 0 {
        0
    } else {
        sequenced_count(requests.drop_last()) + if is_sequenced(requests.last()) {
            1nat
        } else {
            0nat
        }
    }
}

/// Whether the addresses of a request can be written as JSON strings as they are.
pub open spec fn request_is_plain(request: RequestView) -> bool {
    match request {
        RequestView::Transfer(_) => true,
        RequestView::Withdraw(address) => is_plain_text(address),
        RequestView::Deposit(address, _) => is_plain_text(address),
    }
}

/// Whether the addresses of all requests of a batch can be written as they are.
pub open spec fn requests_are_plain(requests: Seq<RequestView>) -> bool {
    forall|i: int| 0 <= i < requests.len() ==> request_is_plain(#[trigger] requests[i])
}

/// The JSON text of a request.
pub open spec fn request_json(request: RequestView) -> Seq<u8> {
    match request {
        RequestView::Transfer(ciphertext) => "{\"transfer\":".spec_bytes() + quoted(
            encode_hex_spec(ciphertext),
        ) + "}".spec_bytes(),
        RequestView::Withdraw(address) => "{\"withdraw\":".spec_bytes() + quoted(address)
            + "}".spec_bytes(),
        RequestView::Deposit(address, amount) => "{\"deposit\":[".spec_bytes() + quoted(address)
            + ",".spec_bytes() + quoted(decimal_spec(amount as nat)) + "]}".spec_bytes(),
    }
}

/// The JSON text of a batch of requests: what the ledger publishes under the
/// requests' storage key.
pub open spec fn requests_json(requests: Seq<RequestView>) -> Seq<u8> {
    "[".spec_bytes() + joined(Seq::new(requests.len(), |i: int| request_json(requests[i])))
        + "]".spec_bytes()
}

/// Writes the JSON text of a request.
pub fn request_to_json(request: &Request) -> (r: Vec<u8>)
    ensures
        r@ == request_json(request@),
{
    let mut out: Vec<u8> = Vec::new();
    match request {
        Request::Transfer(ciphertext) => {
            push_text(&mut out, "{\"transfer\":");
            push_hex(&mut out, ciphertext.as_slice());
            push_text(&mut out, "}");
        },
        Request::Withdraw(address) => {
            push_text(&mut out, "{\"withdraw\":");
            push_quoted(&mut out, address.as_slice());
            push_text(&mut out, "}");
        },
        Request::Deposit(address, amount) => {
            push_text(&mut out, "{\"deposit\":[");
            push_quoted(&mut out, address.as_slice());
            push_text(&mut out, ",");
            out.push(crate::wire::QUOTE);
            push_decimal(&mut out, *amount);
            out.push(crate::wire::QUOTE);
            push_text(&mut out, "]}");
        },
    }
    proof {
        assert(out@ =~= request_json(request@));
    }
    out
}

/// Writes the JSON text of a batch of requests.
pub fn requests_to_json(requests: &Vec<Request>) -> (r: Vec<u8>)
    ensures
        r@ == requests_json(request_views(requests@)),
{
    let ghost views = request_views(requests@);
    let mut items: Vec<Vec<u8>> = Vec::new();
    let mut i: usize = 0;
    while i < requests.len()
        invariant
            i <= requests.len(),
            views == request_views(requests@),
            items@.len() == i,
            forall|j: int| 0 <= j < i ==> (#[trigger] items@[j])@ == request_json(views[j]),
        decreases requests.len() - i,
    {
        let item = request_to_json(&requests[i]);
        items.push(item);
        i += 1;
    }
    let body = join_texts(&items);
    let mut out: Vec<u8> = Vec::new();
    push_text(&mut out, "[");
    crate::bytes::append_bytes(&mut out, body.as_slice());
    push_text(&mut out, "]");
    proof {
        assert(texts(items@) =~= Seq::new(views.len(), |i: int| request_json(views[i])));
        assert(out@ =~= requests_json(views));
    }
    out
}

/// Counts the requests of a batch that count against the sequence number.
pub fn count_sequenced(requests: &Vec<Request>) -> (n: usize)
    ensures
        n == sequenced_count(request_views(requests@)),
{
    let ghost views = request_views(requests@);
    let mut n: usize = 0;
    let mut i: usize = 0;
    proof {
        assert(views.subrange(0, 0) =~= Seq::<RequestView>::empty());
    }
    while i < requests.len()
        invariant
            i <= requests.len(),
            views == request_views(requests@),
            n == sequenced_count(views.subrange(0, i as int)),
            n <= i,
        decreases requests.len() - i,
    {
        proof {
            let next = views.subrange(0, i + 1);
            assert(next.drop_last() =~= views.subrange(0, i as int));
            assert(next.last() == requests@[i as int]@);
        }
        match &requests[i] {
            Request::Transfer(_) => {
                n += 1;
            },
            _ => {},
        }
        i += 1;
    }
    proof {
        assert(views.subrange(0, i as int) =~= views);
    }
    n
}

/// Whether the addresses of all requests of a batch can be written as they are.
pub fn check_requests_plain(requests: &Vec<Request>) -> (r: bool)
    ensures
        r == requests_are_plain(request_views(requests@)),
{
    let ghost views = request_views(requests@);
    let mut i: usize = 0;
    while i < requests.len()
        invariant
            i <= requests.len(),
            views == request_views(requests@),
            forall|j: int| 0 <= j < i ==> request_is_plain(#[trigger] views[j]),
        decreases requests.len() - i,
    {
        let plain = match &requests[i] {
            Request::Transfer(_) => true,
            Request::Withdraw(address) => check_plain_text(address.as_slice()),
            Request::Deposit(address, _) => check_plain_text(address.as_slice()),
        };
        if !plain {
            proof {
                assert(views[i as int] == requests@[i as int]@);
            }
            return false;
        }
        proof {
            assert(views[i as int] == requests@[i as int]@);
        }
        i += 1;
    }
    true
}

/// What the enclave is asked to process: the encrypted state, the pending
/// requests, and the ledger's sequence number.
pub struct UpdateRequestMessage {
    pub state: Vec<u8>,
    pub requests: Vec<Request>,
    pub seq_num: u64,
}

/// A transfer in the clear, as a user encrypts it to the enclave.
pub struct ClearTextTransferRequestMsg {
    pub sender: Vec<u8>,
    pub receiver: Vec<u8>,
    pub amount: u128,
}

/// The JSON text of a list of payouts.
pub open spec fn withdrawals_json(withdrawals: Seq<Withdrawal>) -> Seq<u8> {
    "[".spec_bytes() + joined(
        Seq::new(withdrawals.len(), |i: int| withdrawal_json(withdrawals[i])),
    ) + "]".spec_bytes()
}

/// The JSON text of one payout.
pub open spec fn withdrawal_json(withdrawal: Withdrawal) -> Seq<u8> {
    "[".spec_bytes() + json_string(withdrawal.0) + ",".spec_bytes() + quoted(
        decimal_spec(withdrawal.1 as nat),
    ) + "]".spec_bytes()
}

/// The enclave's answer to a batch, as values.
pub struct UpdateMsgView {
    pub ciphertext: Seq<u8>,
    pub quantity: u32,
    pub withdrawals: Seq<Withdrawal>,
}

/// The JSON text of an update, which its report data is the digest of.
pub open spec fn update_msg_json(m: UpdateMsgView) -> Seq<u8> {
    "{\"ciphertext\":".spec_bytes() + quoted(encode_hex_spec(m.ciphertext))
        + ",\"quantity\":".spec_bytes() + decimal_spec(m.quantity as nat)
        + ",\"withdrawals\":".spec_bytes() + withdrawals_json(m.withdrawals) + "}".spec_bytes()
}

/// The enclave's answer to a batch: the new encrypted state, how many requests it
/// covers, and what is to be paid out.
pub struct UpdateMsg {
    pub ciphertext: Vec<u8>,
    pub quantity: u32,
    pub withdrawals: Vec<(Vec<u8>, u128)>,
}

impl View for UpdateMsg {
    type V = UpdateMsgView;

    open spec fn view(&self) -> UpdateMsgView {
        UpdateMsgView {
            ciphertext: self.ciphertext@,
            quantity: self.quantity,
            withdrawals: withdrawal_views(self.withdrawals@),
        }
    }
}

impl UpdateMsg {
    /// The JSON text of the message.
    pub fn to_json(&self) -> (r: Vec<u8>)
        ensures
            r@ == update_msg_json(self@),
    {
        let ghost views = withdrawal_views(self.withdrawals@);
        let mut items: Vec<Vec<u8>> = Vec::new();
        let mut i: usize = 0;
        while i < self.withdrawals.len()
            invariant
                i <= self.withdrawals.len(),
                views == withdrawal_views(self.withdrawals@),
                items@.len() == i,
                forall|j: int| 0 <= j < i ==> (#[trigger] items@[j])@ == withdrawal_json(views[j]),
            decreases self.withdrawals.len() - i,
        {
            let mut item: Vec<u8> = Vec::new();
            push_text(&mut item, "[");
            push_json_string(&mut item, self.withdrawals[i].0.as_slice());
            push_text(&mut item, ",");
            item.push(crate::wire::QUOTE);
            push_decimal(&mut item, self.withdrawals[i].1);
            item.push(crate::wire::QUOTE);
            push_text(&mut item, "]");
            proof {
                assert(item@ =~= withdrawal_json(views[i as int]));
            }
            items.push(item);
            i += 1;
        }
        let body = join_texts(&items);
        let mut out: Vec<u8> = Vec::new();
        push_text(&mut out, "{\"ciphertext\":");
        push_hex(&mut out, self.ciphertext.as_slice());
        push_text(&mut out, ",\"quantity\":");
        push_decimal(&mut out, self.quantity as u128);
        push_text(&mut out, ",\"withdrawals\":");
        push_text(&mut out, "[");
        crate::bytes::append_bytes(&mut out, body.as_slice());
        push_text(&mut out, "]");
        push_text(&mut out, "}");
        proof {
            assert(texts(items@) =~= Seq::new(views.len(), |i: int| withdrawal_json(views[i])));
            assert(out@ =~= update_msg_json(self@));
        }
        out
    }
}

impl HasUserData for UpdateMsg {
    open spec fn user_data_spec(&self) -> Seq<u8> {
        pad_digest(sha256_spec(update_msg_json(self@)))
    }

    fn user_data(&self) -> (r: UserData) {
        let json = self.to_json();
        let digest = sha256(json.as_slice());
        user_data_of_digest(&digest)
    }
}

/// The wire form of an update: the ciphertext as hex text.
pub struct RawUpdateMsg {
    pub ciphertext: Vec<u8>,
    pub quantity: u32,
    pub withdrawals: Vec<(Vec<u8>, u128)>,
}

impl View for RawUpdateMsg {
    type V = UpdateMsgView;

    open spec fn view(&self) -> UpdateMsgView {
        UpdateMsgView {
            ciphertext: self.ciphertext@,
            quantity: self.quantity,
            withdrawals: withdrawal_views(self.withdrawals@),
        }
    }
}

impl HasDomainType for RawUpdateMsg {
    type DomainType = UpdateMsg;

    open spec fn valid(d: UpdateMsgView) -> bool {
        true
    }

    open spec fn to_domain_spec(raw: UpdateMsgView) -> Result<UpdateMsgView, StdError> {
        match decode_hex_spec(raw.ciphertext) {
            None => Err(StdError::InvalidHex),
            Some(ciphertext) => Ok(
                UpdateMsgView { ciphertext, quantity: raw.quantity, withdrawals: raw.withdrawals },
            ),
        }
    }

    open spec fn from_domain_spec(d: UpdateMsgView) -> UpdateMsgView {
        UpdateMsgView {
            ciphertext: encode_hex_spec(d.ciphertext),
            quantity: d.quantity,
            withdrawals: d.withdrawals,
        }
    }

    proof fn lemma_round_trip(d: UpdateMsgView) {
        lemma_hex_round_trip(d.ciphertext);
    }

    fn to_domain(self) -> (r: Result<UpdateMsg, StdError>) {
        match decode_hex(self.ciphertext.as_slice()) {
            None => Err(StdError::InvalidHex),
            Some(ciphertext) => Ok(
                UpdateMsg { ciphertext, quantity: self.quantity, withdrawals: self.withdrawals },
            ),
        }
    }

    fn from_domain(d: UpdateMsg) -> (r: Self) {
        RawUpdateMsg {
            ciphertext: encode_hex(d.ciphertext.as_slice()),
            quantity: d.quantity,
            withdrawals: d.withdrawals,
        }
    }
}

/// A question for one account's balance: the encrypted state, the address, and
/// the key to encrypt the answer to.
pub struct QueryRequestMessage {
    pub state: Vec<u8>,
    pub address: Vec<u8>,
    pub ephemeral_pubkey: Vec<u8>,
}

/// The answer to a balance question, as values.
pub struct QueryResponseMessageView {
    pub address: Seq<u8>,
    pub encrypted_bal: Seq<u8>,
}

/// The JSON text of a balance answer, which its report data is the digest of.
pub open spec fn query_response_json(m: QueryResponseMessageView) -> Seq<u8> {
    "{\"address\":".spec_bytes() + json_string(m.address) + ",\"encrypted_bal\":".spec_bytes()
        + quoted(encode_hex_spec(m.encrypted_bal)) + "}".spec_bytes()
}

/// The answer to a balance question: the address and its balance, encrypted to
/// the asker's key.
pub struct QueryResponseMessage {
    pub address: Vec<u8>,
    pub encrypted_bal: Vec<u8>,
}

impl View for QueryResponseMessage {
    type V = QueryResponseMessageView;

    open spec fn view(&self) -> QueryResponseMessageView {
        QueryResponseMessageView { address: self.address@, encrypted_bal: self.encrypted_bal@ }
    }
}

impl QueryResponseMessage {
    /// The JSON text of the message.
    pub fn to_json(&self) -> (r: Vec<u8>)
        ensures
            r@ == query_response_json(self@),
    {
        let mut out: Vec<u8> = Vec::new();
        push_text(&mut out, "{\"address\":");
        push_json_string(&mut out, self.address.as_slice());
        push_text(&mut out, ",\"encrypted_bal\":");
        push_hex(&mut out, self.encrypted_bal.as_slice());
        push_text(&mut out, "}");
        proof {
            assert(out@ =~= query_response_json(self@));
        }
        out
    }
}

impl HasUserData for QueryResponseMessage {
    open spec fn user_data_spec(&self) -> Seq<u8> {
        pad_digest(sha256_spec(query_response_json(self@)))
    }

    fn user_data(&self) -> (r: UserData) {
        let json = self.to_json();
        let digest = sha256(json.as_slice());
        user_data_of_digest(&digest)
    }
}

/// The wire form of a balance answer: the encrypted balance as hex text.
pub struct RawQueryResponseMsg {
    pub address: Vec<u8>,
    pub encrypted_bal: Vec<u8>,
}

impl View for RawQueryResponseMsg {
    type V = QueryResponseMessageView;

    open spec fn view(&self) -> QueryResponseMessageView {
        QueryResponseMessageView { address: self.address@, encrypted_bal: self.encrypted_bal@ }
    }
}

impl HasDomainType for RawQueryResponseMsg {
    type DomainType = QueryResponseMessage;

    open spec fn valid(d: QueryResponseMessageView) -> bool {
        true
    }

    open spec fn to_domain_spec(raw: QueryResponseMessageView) -> Result<
        QueryResponseMessageView,
        StdError,
    > {
        match decode_hex_spec(raw.encrypted_bal) {
            None => Err(StdError::InvalidHex),
            Some(encrypted_bal) => Ok(
                QueryResponseMessageView { address: raw.address, encrypted_bal },
            ),
        }
    }

    open spec fn from_domain_spec(d: QueryResponseMessageView) -> QueryResponseMessageView {
        QueryResponseMessageView {
            address: d.address,
            encrypted_bal: encode_hex_spec(d.encrypted_bal),
        }
    }

    proof fn lemma_round_trip(d: QueryResponseMessageView) {
        lemma_hex_round_trip(d.encrypted_bal);
    }

    fn to_domain(self) -> (r: Result<QueryResponseMessage, StdError>) {
        match decode_hex(self.encrypted_bal.as_slice()) {
            None => Err(StdError::InvalidHex),
            Some(encrypted_bal) => Ok(QueryResponseMessage { address: self.address, encrypted_bal }),
        }
    }

    fn from_domain(d: QueryResponseMessage) -> (r: Self) {
        RawQueryResponseMsg {
            address: d.address,
            encrypted_bal: encode_hex(d.encrypted_bal.as_slice()),
        }
    }
}

/// The state of an account as a status answer carries it.
pub struct StatusResponseMessage {
    pub address: Vec<u8>,
    pub encrypted_bal: Vec<u8>,
}

/// Hex text can stand in a JSON string as it is.
proof fn lemma_hex_is_plain(data: Seq<u8>)
    ensures
        is_plain_text(encode_hex_spec(data)),
{
    lemma_hex_digits(data);
    let text = encode_hex_spec(data);
    assert forall|i: int| 0 <= i < text.len() implies crate::wire::is_plain_byte(
        #[trigger] text[i],
    ) by {}
}

/// Two byte strings with the same hex text between quotes at the same place are
/// the same.
proof fn lemma_same_hex(head: Seq<u8>, a: Seq<u8>, rest_a: Seq<u8>, b: Seq<u8>, rest_b: Seq<u8>)
    requires
        head + quoted(encode_hex_spec(a)) + rest_a == head + quoted(encode_hex_spec(b)) + rest_b,
    ensures
        a == b,
        rest_a == rest_b,
{
    lemma_hex_is_plain(a);
    lemma_hex_is_plain(b);
    lemma_quoted_at(head, encode_hex_spec(a), rest_a);
    lemma_quoted_at(head, encode_hex_spec(b), rest_b);
    lemma_hex_round_trip(a);
    lemma_hex_round_trip(b);
    let x = head + quoted(encode_hex_spec(a));
    let y = head + quoted(encode_hex_spec(b));
    assert(x.len() == y.len());
    lemma_split_same(x, rest_a, y, rest_b);
}

/// Two amounts between quotes at the same place of the same bytes are the same.
proof fn lemma_same_amount(head: Seq<u8>, a: u128, rest_a: Seq<u8>, b: u128, rest_b: Seq<u8>)
    requires
        head + quoted(decimal_spec(a as nat)) + rest_a == head + quoted(decimal_spec(b as nat))
            + rest_b,
    ensures
        a == b,
        rest_a == rest_b,
{
    lemma_amount_at(head, a, rest_a);
    lemma_amount_at(head, b, rest_b);
    lemma_split_same(
        head + quoted(decimal_spec(a as nat)),
        rest_a,
        head + quoted(decimal_spec(b as nat)),
        rest_b,
    );
}

/// Two balance answers with the same JSON text are the same answer.
pub proof fn lemma_query_response_json_injective(
    a: QueryResponseMessageView,
    b: QueryResponseMessageView,
)
    requires
        query_response_json(a) == query_response_json(b),
    ensures
        a == b,
{
    let head = "{\"address\":".spec_bytes();
    let mid = ",\"encrypted_bal\":".spec_bytes();
    let tail = "}".spec_bytes();
    let ra = mid + quoted(encode_hex_spec(a.encrypted_bal)) + tail;
    let rb = mid + quoted(encode_hex_spec(b.encrypted_bal)) + tail;
    assert(query_response_json(a) =~= head + json_string(a.address) + ra);
    assert(query_response_json(b) =~= head + json_string(b.address) + rb);
    lemma_same_string(head, a.address, ra, b.address, rb);
    lemma_same_hex(mid, a.encrypted_bal, tail, b.encrypted_bal, tail);
}

/// The report data of two different balance answers differs, unless SHA-256 gives
/// two different texts the same digest.
pub proof fn lemma_query_response_binding(a: QueryResponseMessage, b: QueryResponseMessage)
    requires
        a.user_data_spec() == b.user_data_spec(),
    ensures
        a@ == b@ || (query_response_json(a@) != query_response_json(b@) && sha256_spec(
            query_response_json(a@),
        ) == sha256_spec(query_response_json(b@))),
{
    lemma_cancel_tail(
        sha256_spec(query_response_json(a@)),
        sha256_spec(query_response_json(b@)),
        Seq::new(32, |i: int| 0u8),
    );
    if query_response_json(a@) == query_response_json(b@) {
        lemma_query_response_json_injective(a@, b@);
    }
}

/// The texts of a list of payouts.
pub open spec fn withdrawal_texts(withdrawals: Seq<Withdrawal>) -> Seq<Seq<u8>> {
    Seq::new(withdrawals.len(), |i: int| withdrawal_json(withdrawals[i]))
}

/// Two payouts whose texts stand at the head of the same bytes are the same
/// payout.
proof fn lemma_same_withdrawal(a: Withdrawal, rest_a: Seq<u8>, b: Withdrawal, rest_b: Seq<u8>)
    requires
        withdrawal_json(a) + rest_a == withdrawal_json(b) + rest_b,
    ensures
        a == b,
        rest_a == rest_b,
{
    let open = "[".spec_bytes();
    let comma = ",".spec_bytes();
    let close = "]".spec_bytes();
    let ta = comma + quoted(decimal_spec(a.1 as nat)) + close + rest_a;
    let tb = comma + quoted(decimal_spec(b.1 as nat)) + close + rest_b;
    assert(withdrawal_json(a) + rest_a =~= open + json_string(a.0) + ta);
    assert(withdrawal_json(b) + rest_b =~= open + json_string(b.0) + tb);
    lemma_same_string(open, a.0, ta, b.0, tb);
    assert(ta =~= comma + quoted(decimal_spec(a.1 as nat)) + (close + rest_a));
    assert(tb =~= comma + quoted(decimal_spec(b.1 as nat)) + (close + rest_b));
    lemma_same_amount(comma, a.1, close + rest_a, b.1, close + rest_b);
    lemma_cancel_head(close, rest_a, rest_b);
}

/// The text of a payout begins with a bracket.
proof fn lemma_withdrawal_begins(w: Withdrawal)
    ensures
        withdrawal_json(w).len() > 0,
        withdrawal_json(w)[0] == 91,
{
    reveal_strlit("[");
    assert(is_ascii("[")) by {
        assert(vstd::utf8::is_ascii_chars("["@));
    }
    is_ascii_spec_bytes("[");
    assert("[".spec_bytes() =~= seq![91u8]);
    assert(withdrawal_json(w)[0] == "[".spec_bytes()[0]);
}

/// Two lists of payouts whose joined texts, each with the same text after it
/// that begins with neither a comma nor a bracket, are the same bytes, are the
/// same list.
proof fn lemma_same_withdrawals(a: Seq<Withdrawal>, b: Seq<Withdrawal>, tail: Seq<u8>)
    requires
        tail.len() > 0,
        tail[0] != crate::wire::COMMA,
        tail[0] != 91,
        joined(withdrawal_texts(a)) + tail == joined(withdrawal_texts(b)) + tail,
    ensures
        a == b,
    decreases a.len(),
{
    let ia = withdrawal_texts(a);
    let ib = withdrawal_texts(b);
    if a.len() == 0 || b.len() == 0 {
        if a.len() > 0 {
            lemma_joined_head(a);
            lemma_withdrawal_begins(a[0]);
            assert((joined(ia) + tail)[0] == 91);
            assert(joined(ib) =~= Seq::<u8>::empty());
            assert((joined(ib) + tail)[0] == tail[0]);
        } else if b.len() > 0 {
            lemma_joined_head(b);
            lemma_withdrawal_begins(b[0]);
            assert((joined(ib) + tail)[0] == 91);
            assert(joined(ia) =~= Seq::<u8>::empty());
            assert((joined(ia) + tail)[0] == tail[0]);
        } else {
            assert(a =~= b);
        }
    } else {
        lemma_joined_head(a);
        lemma_joined_head(b);
        let ra = after_first(a) + tail;
        let rb = after_first(b) + tail;
        assert(joined(ia) + tail =~= withdrawal_json(a[0]) + ra);
        assert(joined(ib) + tail =~= withdrawal_json(b[0]) + rb);
        lemma_same_withdrawal(a[0], ra, b[0], rb);
        let xa = a.drop_first();
        let xb = b.drop_first();
        if xa.len() == 0 || xb.len() == 0 {
            if xa.len() > 0 {
                assert(ra[0] == crate::wire::COMMA);
                assert(rb[0] == tail[0]);
            } else if xb.len() > 0 {
                assert(rb[0] == crate::wire::COMMA);
                assert(ra[0] == tail[0]);
            }
            assert(xa =~= xb);
        } else {
            let comma = seq![crate::wire::COMMA];
            assert(ra =~= comma + (joined(withdrawal_texts(xa)) + tail));
            assert(rb =~= comma + (joined(withdrawal_texts(xb)) + tail));
            lemma_cancel_head(comma, joined(withdrawal_texts(xa)) + tail, joined(withdrawal_texts(xb)) + tail);
            lemma_same_withdrawals(xa, xb, tail);
        }
        assert(a =~= seq![a[0]] + xa);
        assert(b =~= seq![b[0]] + xb);
    }
}

/// What follows the first payout's text in the joined texts of a list: nothing,
/// or a comma and the joined texts of the rest.
spec fn after_first(withdrawals: Seq<Withdrawal>) -> Seq<u8> {
    if withdrawals.len() <= 1 {
        Seq::<u8>::empty()
    } else {
        seq![crate::wire::COMMA] + joined(withdrawal_texts(withdrawals.drop_first()))
    }
}

/// The joined texts of a list of payouts begin with the first payout's text.
proof fn lemma_joined_head(withdrawals: Seq<Withdrawal>)
    requires
        withdrawals.len() > 0,
    ensures
        joined(withdrawal_texts(withdrawals)) == withdrawal_json(withdrawals[0]) + after_first(
            withdrawals,
        ),
{
    let items = withdrawal_texts(withdrawals);
    assert(items[0] == withdrawal_json(withdrawals[0]));
    if withdrawals.len() == 1 {
        assert(joined(items) == items[0]);
        assert(joined(items) =~= items[0] + Seq::<u8>::empty());
    } else {
        lemma_joined_first(items);
        assert(items.drop_first() =~= withdrawal_texts(withdrawals.drop_first()));
        assert(joined(items) =~= items[0] + after_first(withdrawals));
    }
}

/// The digits at the head of two equal byte strings are the same, where what
/// follows the digits begins with something that is no digit.
proof fn lemma_same_digits(a: Seq<u8>, rest_a: Seq<u8>, b: Seq<u8>, rest_b: Seq<u8>)
    requires
        forall|i: int| 0 <= i < a.len() ==> is_digit(#[trigger] a[i]),
        forall|i: int| 0 <= i < b.len() ==> is_digit(#[trigger] b[i]),
        rest_a.len() > 0 && !is_digit(rest_a[0]),
        rest_b.len() > 0 && !is_digit(rest_b[0]),
        a + rest_a == b + rest_b,
    ensures
        a == b,
        rest_a == rest_b,
{
    let x = a + rest_a;
    let y = b + rest_b;
    if a.len() < b.len() {
        assert(x[a.len() as int] == rest_a[0]);
        assert(y[a.len() as int] == b[a.len() as int]);
    } else if b.len() < a.len() {
        assert(y[b.len() as int] == rest_b[0]);
        assert(x[b.len() as int] == a[b.len() as int]);
    }
    lemma_split_same(a, rest_a, b, rest_b);
}

/// What follows the quantity in the text of an update.
spec fn after_quantity(m: UpdateMsgView) -> Seq<u8> {
    ",\"withdrawals\":[".spec_bytes() + (joined(withdrawal_texts(m.withdrawals)) + "]}".spec_bytes())
}

/// What follows the ciphertext in the text of an update.
spec fn after_ciphertext(m: UpdateMsgView) -> Seq<u8> {
    ",\"quantity\":".spec_bytes() + (decimal_spec(m.quantity as nat) + after_quantity(m))
}

/// The literals that an update's text is made of, put together.
proof fn lemma_update_literals()
    ensures
        ",\"withdrawals\":".spec_bytes() + "[".spec_bytes() == ",\"withdrawals\":[".spec_bytes(),
        "]".spec_bytes() + "}".spec_bytes() == "]}".spec_bytes(),
        ",\"withdrawals\":[".spec_bytes().len() > 0,
        ",\"withdrawals\":[".spec_bytes()[0] == 44,
        "]}".spec_bytes().len() > 0,
        "]}".spec_bytes()[0] == 93,
{
    reveal_strlit(",\"withdrawals\":");
    reveal_strlit(",\"withdrawals\":[");
    reveal_strlit("[");
    reveal_strlit("]");
    reveal_strlit("}");
    reveal_strlit("]}");
    assert(is_ascii(",\"withdrawals\":")) by {
        assert(vstd::utf8::is_ascii_chars(",\"withdrawals\":"@));
    }
    assert(is_ascii(",\"withdrawals\":[")) by {
        assert(vstd::utf8::is_ascii_chars(",\"withdrawals\":["@));
    }
    assert(is_ascii("[")) by {
        assert(vstd::utf8::is_ascii_chars("["@));
    }
    assert(is_ascii("]")) by {
        assert(vstd::utf8::is_ascii_chars("]"@));
    }
    assert(is_ascii("}")) by {
        assert(vstd::utf8::is_ascii_chars("}"@));
    }
    assert(is_ascii("]}")) by {
        assert(vstd::utf8::is_ascii_chars("]}"@));
    }
    is_ascii_spec_bytes(",\"withdrawals\":");
    is_ascii_spec_bytes(",\"withdrawals\":[");
    is_ascii_spec_bytes("[");
    is_ascii_spec_bytes("]");
    is_ascii_spec_bytes("}");
    is_ascii_spec_bytes("]}");
    assert(",\"withdrawals\":".spec_bytes() + "[".spec_bytes() =~= ",\"withdrawals\":[".spec_bytes());
    assert("]".spec_bytes() + "}".spec_bytes() =~= "]}".spec_bytes());
}

/// Nine texts written one after another are the same bytes however they are
/// grouped.
proof fn lemma_regroup(
    a: Seq<u8>,
    b: Seq<u8>,
    c: Seq<u8>,
    d: Seq<u8>,
    e: Seq<u8>,
    o: Seq<u8>,
    w: Seq<u8>,
    cl: Seq<u8>,
    en: Seq<u8>,
)
    ensures
        a + b + c + d + e + (o + w + cl) + en == a + b + (c + (d + ((e + o) + (w + (cl + en))))),
{
    assert(a + b + c + d + e + (o + w + cl) + en =~= a + b + (c + (d + ((e + o) + (w + (cl
        + en))))));
}

/// The text of an update, put together from its parts.
proof fn lemma_update_parts(m: UpdateMsgView)
    ensures
        update_msg_json(m) == "{\"ciphertext\":".spec_bytes() + quoted(
            encode_hex_spec(m.ciphertext),
        ) + after_ciphertext(m),
{
    lemma_update_literals();
    lemma_regroup(
        "{\"ciphertext\":".spec_bytes(),
        quoted(encode_hex_spec(m.ciphertext)),
        ",\"quantity\":".spec_bytes(),
        decimal_spec(m.quantity as nat),
        ",\"withdrawals\":".spec_bytes(),
        "[".spec_bytes(),
        joined(withdrawal_texts(m.withdrawals)),
        "]".spec_bytes(),
        "}".spec_bytes(),
    );
}

/// Two updates with the same text after the quantity have the same payouts.
proof fn lemma_same_after_quantity(a: UpdateMsgView, b: UpdateMsgView)
    requires
        after_quantity(a) == after_quantity(b),
    ensures
        a.withdrawals == b.withdrawals,
{
    lemma_update_literals();
    let list = ",\"withdrawals\":[".spec_bytes();
    let tail = "]}".spec_bytes();
    lemma_cancel_head(
        list,
        joined(withdrawal_texts(a.withdrawals)) + tail,
        joined(withdrawal_texts(b.withdrawals)) + tail,
    );
    lemma_same_withdrawals(a.withdrawals, b.withdrawals, tail);
}

/// Two updates with the same text after the ciphertext have the same quantity and
/// the same payouts.
proof fn lemma_same_after_ciphertext(a: UpdateMsgView, b: UpdateMsgView)
    requires
        after_ciphertext(a) == after_ciphertext(b),
    ensures
        a.quantity == b.quantity,
        a.withdrawals == b.withdrawals,
{
    lemma_update_literals();
    let mid = ",\"quantity\":".spec_bytes();
    let qa = decimal_spec(a.quantity as nat);
    let qb = decimal_spec(b.quantity as nat);
    lemma_cancel_head(mid, qa + after_quantity(a), qb + after_quantity(b));
    lemma_decimal_round_trip(a.quantity as nat);
    lemma_decimal_round_trip(b.quantity as nat);
    assert(after_quantity(a)[0] == 44);
    assert(after_quantity(b)[0] == 44);
    lemma_same_digits(qa, after_quantity(a), qb, after_quantity(b));
    lemma_same_after_quantity(a, b);
}

/// Two updates with the same JSON text are the same update.
pub proof fn lemma_update_msg_json_injective(a: UpdateMsgView, b: UpdateMsgView)
    requires
        update_msg_json(a) == update_msg_json(b),
    ensures
        a == b,
{
    lemma_update_parts(a);
    lemma_update_parts(b);
    lemma_same_hex(
        "{\"ciphertext\":".spec_bytes(),
        a.ciphertext,
        after_ciphertext(a),
        b.ciphertext,
        after_ciphertext(b),
    );
    lemma_same_after_ciphertext(a, b);
}

/// The report data of two different updates differs, unless SHA-256 gives two
/// different texts the same digest.
pub proof fn lemma_update_msg_binding(a: UpdateMsg, b: UpdateMsg)
    requires
        a.user_data_spec() == b.user_data_spec(),
    ensures
        a@ == b@ || (update_msg_json(a@) != update_msg_json(b@) && sha256_spec(update_msg_json(a@))
            == sha256_spec(update_msg_json(b@))),
{
    lemma_cancel_tail(
        sha256_spec(update_msg_json(a@)),
        sha256_spec(update_msg_json(b@)),
        Seq::new(32, |i: int| 0u8),
    );
    if update_msg_json(a@) == update_msg_json(b@) {
        lemma_update_msg_json_injective(a@, b@);
    }
}

} // verus!
