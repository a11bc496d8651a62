//! The event dispatcher: ledger events become operations, operations pass
//! through a queue of one, and a single consumer runs them one by one, letting
//! two blocks pass after each.

use vstd::prelude::*;
use vstd::string::*;
use crate::account::{parse_account_spec, AccountId};
use crate::bytes::{bytes_eq, copy_bytes, copy_range};

verus! {

/// The attributes of a ledger event: each key with its values.
pub struct ChainEvent {
    pub events: Option<Vec<(Vec<u8>, Vec<Vec<u8>>)>>,
}

/// The attributes of an event as values.
pub type AttributesView = Seq<(Seq<u8>, Seq<Seq<u8>>)>;

/// The attributes of an event as values.
pub open spec fn attributes_view(attributes: Seq<(Vec<u8>, Vec<Vec<u8>>)>) -> AttributesView {
    Seq::new(
        attributes.len(),
        |i: int| (attributes[i].0@, Seq::new(attributes[i].1@.len(), |j: int| attributes[i].1@[j]@)),
    )
}

/// Whether `text` begins with `prefix`.
pub open spec fn starts_with(text: Seq<u8>, prefix: Seq<u8>) -> bool {
    prefix.len() <= text.len() && text.subrange(0, prefix.len() as int) == prefix
}

/// Whether some key of the attributes begins with `prefix`.
pub open spec fn has_key_with_prefix(attributes: AttributesView, prefix: Seq<u8>) -> bool {
    exists|i: int| 0 <= i < attributes.len() && starts_with((#[trigger] attributes[i]).0, prefix)
}

/// The place of the first attribute with the key `key`, or the number of
/// attributes where there is none.
pub open spec fn place_of(attributes: AttributesView, key: Seq<u8>) -> int
    decreases attributes.len(),
{
    if attributes.len() == 0 {
        0
    } else if attributes[0].0 == key {
        0
    } else {
        1 + place_of(attributes.drop_first(), key)
    }
}

/// The values under the key `key`, if the key is there.
pub open spec fn values_of(attributes: AttributesView, key: Seq<u8>) -> Option<Seq<Seq<u8>>> {
    if place_of(attributes, key) < attributes.len() {
        Some(attributes[place_of(attributes, key)].1)
    } else {
        None
    }
}

/// The place that `place_of` gives is within the attributes or just beyond them,
/// and holds the key where it is within.
pub proof fn lemma_place_of(attributes: AttributesView, key: Seq<u8>)
    ensures
        0 <= place_of(attributes, key) <= attributes.len(),
        place_of(attributes, key) < attributes.len() ==> attributes[place_of(attributes, key)].0
            == key,
        forall|i: int| 0 <= i < place_of(attributes, key) ==> (#[trigger] attributes[i]).0 != key,
    decreases attributes.len(),
{
    if attributes.len() > 0 && attributes[0].0 != key {
        let rest = attributes.drop_first();
        lemma_place_of(rest, key);
        assert forall|i: int| 0 <= i < place_of(attributes, key) implies (
        #[trigger] attributes[i]).0 != key by {
            if i > 0 {
                assert(rest[i - 1] == attributes[i]);
            }
        }
    }
}

/// Why an event gives no operation.
#[derive(Clone, Copy, Debug, PartialEq, Eq, Structural)]
pub enum EventError {
    /// The event is of no kind that the dispatcher handles.
    Unsupported,
    /// The event names no contract.
    MissingContractAddress,
    /// The event names the contract with no value.
    EmptyContractAddress,
    /// The contract's address is no account id.
    ParseContractAddress,
    /// The event names no sender.
    MissingSender,
    /// The event names the sender with no value.
    EmptySender,
    /// The event carries no key to answer to.
    MissingEphemeralPubkey,
    /// The event carries the key to answer to with no value.
    EmptyEphemeralPubkey,
}

/// The kinds of operation that events stand for.
#[derive(Clone, Copy, Debug, PartialEq, Eq, Structural)]
pub enum TransfersOpEventTypes {
    Query,
    Transfer,
}

/// An operation that an event asks for.
pub enum TransfersOpEvent {
    /// A user asked for a balance.
    Query { contract_address: AccountId, ephemeral_pubkey: Vec<u8>, sender: Vec<u8> },
    /// Requests are pending on the contract.
    Transfer { contract_address: AccountId },
}

/// An operation as values.
pub enum TransfersOpEventView {
    Query { contract_address: Seq<u8>, ephemeral_pubkey: Seq<u8>, sender: Seq<u8> },
    Transfer { contract_address: Seq<u8> },
}

impl View for TransfersOpEvent {
    type V = TransfersOpEventView;

    open spec fn view(&self) -> TransfersOpEventView {
        match *self {
            TransfersOpEvent::Query {
                contract_address,
                ephemeral_pubkey,
                sender,
            } => TransfersOpEventView::Query {
                contract_address: contract_address@,
                ephemeral_pubkey: ephemeral_pubkey@,
                sender: sender@,
            },
            TransfersOpEvent::Transfer { contract_address } => TransfersOpEventView::Transfer {
                contract_address: contract_address@,
            },
        }
    }
}

/// What is read of an event: the contract and, for a question, the key to
/// answer to and the sender, each if its attribute has a value.
pub struct EventInfoView {
    pub contract_address: Seq<u8>,
    pub ephemeral_pubkey: Option<Seq<u8>>,
    pub sender: Option<Seq<u8>>,
}

/// The first of a list of values, if there is one.
pub open spec fn first_of(values: Seq<Seq<u8>>) -> Option<Seq<u8>> {
    if values.len() > 0 {
        Some(values[0])
    } else {
        None
    }
}

/// What reading an event of a kind gives.
pub open spec fn event_info_spec(kind: TransfersOpEventTypes, attributes: AttributesView) -> Result<
    EventInfoView,
    EventError,
> {
    match values_of(attributes, "execute._contract_address".spec_bytes()) {
        None => Err(EventError::MissingContractAddress),
        Some(addresses) => match first_of(addresses) {
            None => Err(EventError::EmptyContractAddress),
            Some(text) => match parse_account_spec(text) {
                None => Err(EventError::ParseContractAddress),
                Some(contract_address) => match kind {
                    TransfersOpEventTypes::Transfer => Ok(
                        EventInfoView { contract_address, ephemeral_pubkey: None, sender: None },
                    ),
                    TransfersOpEventTypes::Query => match values_of(
                        attributes,
                        "message.sender".spec_bytes(),
                    ) {
                        None => Err(EventError::MissingSender),
                        Some(senders) => match values_of(
                            attributes,
                            "wasm-query_balance.emphemeral_pubkey".spec_bytes(),
                        ) {
                            None => Err(EventError::MissingEphemeralPubkey),
                            Some(keys) => Ok(
                                EventInfoView {
                                    contract_address,
                                    ephemeral_pubkey: first_of(keys),
                                    sender: first_of(senders),
                                },
                            ),
                        },
                    },
                },
            },
        },
    }
}

/// The operation that an event asks for. An event with a key of a balance
/// question asks for an answer; otherwise one with a key of a transfer asks for
/// the pending requests to be processed.
pub open spec fn op_event_spec(attributes: Option<AttributesView>) -> Result<
    TransfersOpEventView,
    EventError,
> {
    match attributes {
        None => Err(EventError::Unsupported),
        Some(a) => if has_key_with_prefix(a, "wasm-query_balance".spec_bytes()) {
            match event_info_spec(TransfersOpEventTypes::Query, a) {
                Err(e) => Err(e),
                Ok(info) => match (info.ephemeral_pubkey, info.sender) {
                    (None, _) => Err(EventError::EmptyEphemeralPubkey),
                    (Some(_), None) => Err(EventError::EmptySender),
                    (Some(ephemeral_pubkey), Some(sender)) => Ok(
                        TransfersOpEventView::Query {
                            contract_address: info.contract_address,
                            ephemeral_pubkey,
                            sender,
                        },
                    ),
                },
            }
        } else if has_key_with_prefix(a, "wasm-transfer.action".spec_bytes()) {
            match event_info_spec(TransfersOpEventTypes::Transfer, a) {
                Err(e) => Err(e),
                Ok(info) => Ok(
                    TransfersOpEventView::Transfer { contract_address: info.contract_address },
                ),
            }
        } else {
            Err(EventError::Unsupported)
        },
    }
}

fn begins_with(text: &[u8], prefix: &[u8]) -> (r: bool)
    ensures
        r == starts_with(text@, prefix@),
{
    if prefix.len() > text.len() {
        return false;
    }
    let head = copy_range(text, 0, prefix.len());
    bytes_eq(head.as_slice(), prefix)
}

fn any_key_begins_with(attributes: &Vec<(Vec<u8>, Vec<Vec<u8>>)>, prefix: &[u8]) -> (r: bool)
    ensures
        r == has_key_with_prefix(attributes_view(attributes@), prefix@),
{
    let ghost a = attributes_view(attributes@);
    let mut i: usize = 0;
    while i < attributes.len()
        invariant
            i <= attributes.len(),
            a == attributes_view(attributes@),
            forall|j: int| 0 <= j < i ==> !starts_with((#[trigger] a[j]).0, prefix@),
        decreases attributes.len() - i,
    {
        if begins_with(attributes[i].0.as_slice(), prefix) {
            proof {
                assert(starts_with(a[i as int].0, prefix@));
            }
            return true;
        }
        i += 1;
    }
    false
}

/// The values under a key, if the key is there.
fn lookup<'a>(attributes: &'a Vec<(Vec<u8>, Vec<Vec<u8>>)>, key: &[u8]) -> (r: Option<
    &'a Vec<Vec<u8>>,
>)
    ensures
        r.is_some() == values_of(attributes_view(attributes@), key@).is_some(),
        r matches Some(v) ==> Seq::new(v@.len(), |j: int| v@[j]@) == values_of(
            attributes_view(attributes@),
            key@,
        ).unwrap(),
{
    let ghost a = attributes_view(attributes@);
    let mut i: usize = 0;
    while i < attributes.len()
        invariant
            i <= attributes.len(),
            a == attributes_view(attributes@),
            forall|j: int| 0 <= j < i ==> (#[trigger] a[j]).0 != key@,
        decreases attributes.len() - i,
    {
        if bytes_eq(attributes[i].0.as_slice(), key) {
            proof {
                lemma_place_of(a, key@);
                let p = place_of(a, key@);
                assert(a[i as int].0 == key@);
                if p < i {
                    assert(a[p].0 == key@);
                }
                assert(p == i);
                assert(Seq::new(attributes@[i as int].1@.len(), |j: int| attributes@[i as int].1@[j]@)
                    =~= a[i as int].1);
            }
            return Some(&attributes[i].1);
        }
        i += 1;
    }
    proof {
        lemma_place_of(a, key@);
        let p = place_of(a, key@);
        if p < a.len() {
            assert(a[p].0 == key@);
        }
    }
    None
}

/// What is read of an event.
pub struct EventInfo {
    pub contract_address: AccountId,
    pub ephemeral_pubkey: Option<Vec<u8>>,
    pub sender: Option<Vec<u8>>,
}

impl View for EventInfo {
    type V = EventInfoView;

    open spec fn view(&self) -> EventInfoView {
        EventInfoView {
            contract_address: self.contract_address@,
            ephemeral_pubkey: match self.ephemeral_pubkey {
                Some(k) => Some(k@),
                None => None,
            },
            sender: match self.sender {
                Some(s) => Some(s@),
                None => None,
            },
        }
    }
}

fn first_value(values: &Vec<Vec<u8>>) -> (r: Option<Vec<u8>>)
    ensures
        match first_of(Seq::new(values@.len(), |j: int| values@[j]@)) {
            Some(v) => r matches Some(x) && x@ == v,
            None => r is None,
        },
{
    if values.len() > 0 {
        Some(copy_bytes(values[0].as_slice()))
    } else {
        None
    }
}

/// Reads the contract and, for a balance question, the sender and the key to
/// answer to, from the attributes of an event.
pub fn extract_event_info(
    op_event: TransfersOpEventTypes,
    events: &Vec<(Vec<u8>, Vec<Vec<u8>>)>,
) -> (r: Result<EventInfo, EventError>)
    ensures
        match event_info_spec(op_event, attributes_view(events@)) {
            Ok(info) => r matches Ok(i) && i@ == info,
            Err(e) => r matches Err(f) && f == e,
        },
{
    let addresses = match lookup(events, "execute._contract_address".as_bytes()) {
        Some(v) => v,
        None => {
            return Err(EventError::MissingContractAddress);
        },
    };
    let text = match first_value(addresses) {
        Some(t) => t,
        None => {
            return Err(EventError::EmptyContractAddress);
        },
    };
    let contract_address = match AccountId::parse(text.as_slice()) {
        Some(c) => c,
        None => {
            return Err(EventError::ParseContractAddress);
        },
    };
    match op_event {
        TransfersOpEventTypes::Transfer => Ok(
            EventInfo { contract_address, ephemeral_pubkey: None, sender: None },
        ),
        TransfersOpEventTypes::Query => {
            let senders = match lookup(events, "message.sender".as_bytes()) {
                Some(v) => v,
                None => {
                    return Err(EventError::MissingSender);
                },
            };
            let keys = match lookup(events, "wasm-query_balance.emphemeral_pubkey".as_bytes()) {
                Some(v) => v,
                None => {
                    return Err(EventError::MissingEphemeralPubkey);
                },
            };
            Ok(
                EventInfo {
                    contract_address,
                    ephemeral_pubkey: first_value(keys),
                    sender: first_value(senders),
                },
            )
        },
    }
}

impl TransfersOpEvent {
    /// The operation that an event asks for.
    pub fn try_from(event: &ChainEvent) -> (r: Result<TransfersOpEvent, EventError>)
        ensures
            match op_event_spec(
                match event.events {
                    Some(a) => Some(attributes_view(a@)),
                    None => None,
                },
            ) {
                Ok(op) => r matches Ok(o) && o@ == op,
                Err(e) => r matches Err(f) && f == e,
            },
    {
        let attributes = match &event.events {
            Some(a) => a,
            None => {
                return Err(EventError::Unsupported);
            },
        };
        if any_key_begins_with(attributes, "wasm-query_balance".as_bytes()) {
            let info = match extract_event_info(TransfersOpEventTypes::Query, attributes) {
                Ok(i) => i,
                Err(e) => {
                    return Err(e);
                },
            };
            let ephemeral_pubkey = match info.ephemeral_pubkey {
                Some(k) => k,
                None => {
                    return Err(EventError::EmptyEphemeralPubkey);
                },
            };
            let sender = match info.sender {
                Some(s) => s,
                None => {
                    return Err(EventError::EmptySender);
                },
            };
            Ok(
                TransfersOpEvent::Query {
                    contract_address: info.contract_address,
                    ephemeral_pubkey,
                    sender,
                },
            )
        } else if any_key_begins_with(attributes, "wasm-transfer.action".as_bytes()) {
            match extract_event_info(TransfersOpEventTypes::Transfer, attributes) {
                Ok(info) => Ok(
                    TransfersOpEvent::Transfer { contract_address: info.contract_address },
                ),
                Err(e) => Err(e),
            }
        } else {
            Err(EventError::Unsupported)
        }
    }
}

/// How many new blocks the consumer lets pass after an operation.
pub const BLOCKS_TO_WAIT: u8 = 2;

/// What the consumer is doing.
#[derive(Clone, Copy, Debug, PartialEq, Eq, Structural)]
pub enum Consumer {
    /// Nothing: the next operation can start.
    Idle,
    /// An operation is running.
    Busy,
    /// An operation ended; so many new blocks are still to pass.
    Waiting(u8),
}

/// What the consumer is to do next.
#[derive(Clone, Copy, Debug, PartialEq, Eq, Structural)]
pub enum Step {
    /// Run the operation that was taken from the queue.
    Run,
    /// Wait for the next new block.
    AwaitBlock,
    /// Wait for an operation to arrive.
    AwaitOperation,
    /// Wait for the running operation to end.
    AwaitCompletion,
}

/// The dispatcher: a queue that holds at most one operation, and the consumer.
pub struct Dispatcher<T> {
    slot: Option<T>,
    consumer: Consumer,
}

impl<T> Dispatcher<T> {
    /// The operation in the queue, if there is one.
    pub closed spec fn queued(&self) -> Option<T> {
        self.slot
    }

    /// What the consumer is doing.
    pub closed spec fn consumer(&self) -> Consumer {
        self.consumer
    }

    /// The consumer never waits for more blocks than two, and never for none.
    pub open spec fn wf(&self) -> bool {
        self.consumer() matches Consumer::Waiting(n) ==> 1 <= n <= BLOCKS_TO_WAIT
    }

    /// A dispatcher with an empty queue and an idle consumer.
    pub fn new() -> (r: Self)
        ensures
            r.wf(),
            r.queued() is None,
            r.consumer() == Consumer::Idle,
    {
        Dispatcher { slot: None, consumer: Consumer::Idle }
    }

    /// Offers an operation to the queue. A full queue hands it back: the producer
    /// has to hold it until the consumer has taken the one before.
    pub fn offer(&mut self, op: T) -> (r: Option<T>)
        requires
            old(self).wf(),
        ensures
            final(self).wf(),
            final(self).consumer() == old(self).consumer(),
            old(self).queued() is None ==> r is None && final(self).queued() == Some(op),
            old(self).queued() is Some ==> r == Some(op) && final(self).queued() == old(self).queued(),
    {
        if self.slot.is_some() {
            Some(op)
        } else {
            self.slot = Some(op);
            None
        }
    }

    /// What the consumer is to do next.
    pub fn next_step(&self) -> (r: Step)
        requires
            self.wf(),
        ensures
            r == match self.consumer() {
                Consumer::Busy => Step::AwaitCompletion,
                Consumer::Waiting(_) => Step::AwaitBlock,
                Consumer::Idle => if self.queued() is Some {
                    Step::Run
                } else {
                    Step::AwaitOperation
                },
            },
    {
        match self.consumer {
            Consumer::Busy => Step::AwaitCompletion,
            Consumer::Waiting(_) => Step::AwaitBlock,
            Consumer::Idle => if self.slot.is_some() {
                Step::Run
            } else {
                Step::AwaitOperation
            },
        }
    }

    /// Takes the queued operation to run it. Only an idle consumer takes one.
    pub fn take(&mut self) -> (r: Option<T>)
        requires
            old(self).wf(),
        ensures
            final(self).wf(),
            old(self).consumer() == Consumer::Idle && old(self).queued() is Some ==> r == old(self).queued() && final(self).queued() is None && final(self).consumer()
                == Consumer::Busy,
            !(old(self).consumer() == Consumer::Idle && old(self).queued() is Some) ==> r is None
                && final(self).queued() == old(self).queued() && final(self).consumer() == old(self).consumer(),
    {
        match self.consumer {
            Consumer::Idle => {
                if self.slot.is_some() {
                    self.consumer = Consumer::Busy;
                    self.slot.take()
                } else {
                    None
                }
            },
            _ => None,
        }
    }

    /// Records that the running operation ended, well or not: two new blocks are
    /// to pass before the next one starts.
    pub fn completed(&mut self)
        requires
            old(self).wf(),
        ensures
            final(self).wf(),
            final(self).queued() == old(self).queued(),
            final(self).consumer() == (if old(self).consumer() == Consumer::Busy {
                Consumer::Waiting(BLOCKS_TO_WAIT)
            } else {
                old(self).consumer()
            }),
    {
        match self.consumer {
            Consumer::Busy => {
                self.consumer = Consumer::Waiting(BLOCKS_TO_WAIT);
            },
            _ => {},
        }
    }

    /// Records a new block.
    pub fn new_block(&mut self)
        requires
            old(self).wf(),
        ensures
            final(self).wf(),
            final(self).queued() == old(self).queued(),
            final(self).consumer() == (match old(self).consumer() {
                Consumer::Waiting(n) => if n <= 1 {
                    Consumer::Idle
                } else {
                    Consumer::Waiting((n - 1) as u8)
                },
                other => other,
            }),
    {
        match self.consumer {
            Consumer::Waiting(n) => {
                if n <= 1 {
                    self.consumer = Consumer::Idle;
                } else {
                    self.consumer = Consumer::Waiting(n - 1);
                }
            },
            _ => {},
        }
    }
}

/// What a subscription to new blocks yields.
#[derive(Clone, Copy, Debug, PartialEq, Eq, Structural)]
pub enum StreamItem {
    /// A new block.
    NewBlock,
    /// The subscription failed.
    Failure,
    /// The subscription ended.
    End,
}

/// How a wait for blocks goes on after an item of the subscription.
#[derive(Clone, Copy, Debug, PartialEq, Eq, Structural)]
pub enum WaitOutcome {
    /// So many blocks are still to come.
    Continue(u8),
    /// The wait is over.
    Done,
    /// The wait failed.
    Failed,
}

/// One step of waiting for blocks: a block counts down; a failure of the
/// subscription, or its end before the blocks have come, ends the wait with a
/// failure.
pub fn wait_step(left: u8, item: StreamItem) -> (r: WaitOutcome)
    requires
        left >= 1,
    ensures
        r == match item {
            StreamItem::NewBlock => if left == 1 {
                WaitOutcome::Done
            } else {
                WaitOutcome::Continue((left - 1) as u8)
            },
            StreamItem::Failure => WaitOutcome::Failed,
            StreamItem::End => WaitOutcome::Failed,
        },
{
    match item {
        StreamItem::NewBlock => if left == 1 {
            WaitOutcome::Done
        } else {
            WaitOutcome::Continue(left - 1)
        },
        StreamItem::Failure => WaitOutcome::Failed,
        StreamItem::End => WaitOutcome::Failed,
    }
}

/// Between the end of one operation and the start of the next, two new blocks
/// pass: after an operation ended, the consumer takes nothing until it has seen
/// two blocks, and is idle once it has.
pub proof fn lemma_two_blocks_between_operations(start: Consumer, one: Consumer, two: Consumer)
    requires
        start == Consumer::Waiting(BLOCKS_TO_WAIT),
        one == (match start {
            Consumer::Waiting(n) => if n <= 1 {
                Consumer::Idle
            } else {
                Consumer::Waiting((n - 1) as u8)
            },
            other => other,
        }),
        two == (match one {
            Consumer::Waiting(n) => if n <= 1 {
                Consumer::Idle
            } else {
                Consumer::Waiting((n - 1) as u8)
            },
            other => other,
        }),
    ensures
        start != Consumer::Idle,
        one != Consumer::Idle,
        two == Consumer::Idle,
{
}

} // verus!
