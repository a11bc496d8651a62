//! The plaintexts that travel encrypted: the enclave's state, a user's transfer,
//! and an account's balance. Each is written as compact JSON with its fields in
//! a fixed order. Text in that shape is read here; JSON text in another shape is
//! read as an object of strings.

use vstd::prelude::*;
use vstd::string::*;
use crate::balances::{entry_views, ascending, Balances, EntrySpec};
use crate::bytes::{append_bytes, bytes_eq, copy_range};
use crate::decimal::{decimal_spec, parse_decimal, parse_decimal_spec};
use crate::json::{
    json_state_spec, json_tables_spec, json_transfer_spec, lemma_rows_are_plain, names_of,
    last_named, read_json_state, read_json_transfer,
};
use crate::messages::ClearTextTransferRequestMsg;
use crate::wire::{
    check_plain_text, is_plain_text, join_texts, joined, push_decimal, push_quoted, push_text,
    quoted, texts, COMMA, QUOTE,
};

verus! {

/// The JSON text of one account of the state.
pub open spec fn entry_json(entry: EntrySpec) -> Seq<u8> {
    quoted(entry.0) + ":".spec_bytes() + quoted(decimal_spec(entry.1 as nat))
}

/// The JSON text of the state: its accounts in ascending order of address.
pub open spec fn state_json(entries: Seq<EntrySpec>) -> Seq<u8> {
    "{\"state\":{".spec_bytes() + joined(Seq::new(entries.len(), |i: int| entry_json(entries[i])))
        + "}}".spec_bytes()
}

/// The JSON text of a balance.
pub open spec fn balance_json(amount: u128) -> Seq<u8> {
    "{\"balance\":".spec_bytes() + quoted(decimal_spec(amount as nat)) + "}".spec_bytes()
}

/// The JSON text of a transfer in the clear.
pub open spec fn transfer_json(sender: Seq<u8>, receiver: Seq<u8>, amount: u128) -> Seq<u8> {
    "{\"sender\":".spec_bytes() + quoted(sender) + ",\"receiver\":".spec_bytes() + quoted(
        receiver,
    ) + ",\"amount\":".spec_bytes() + quoted(decimal_spec(amount as nat)) + "}".spec_bytes()
}

/// Writes the JSON text of the state.
pub fn encode_state(balances: &Balances) -> (r: Vec<u8>)
    ensures
        r@ == state_json(balances.entries()),
{
    let ghost entries = balances.entries();
    let mut items: Vec<Vec<u8>> = Vec::new();
    let n = balances.len();
    let mut i: usize = 0;
    while i < n
        invariant
            i <= n,
            n == balances.entries().len(),
            entries == balances.entries(),
            items@.len() == i,
            forall|j: int| 0 <= j < i ==> (#[trigger] items@[j])@ == entry_json(entries[j]),
        decreases n - i,
    {
        let mut item: Vec<u8> = Vec::new();
        push_quoted(&mut item, balances.key_at(i).as_slice());
        push_text(&mut item, ":");
        item.push(QUOTE);
        push_decimal(&mut item, balances.amount_at(i));
        item.push(QUOTE);
        proof {
            assert(item@ =~= entry_json(entries[i as int]));
        }
        items.push(item);
        i += 1;
    }
    let body = join_texts(&items);
    let mut out: Vec<u8> = Vec::new();
    push_text(&mut out, "{\"state\":{");
    append_bytes(&mut out, body.as_slice());
    push_text(&mut out, "}}");
    proof {
        assert(texts(items@) =~= Seq::new(entries.len(), |i: int| entry_json(entries[i])));
        assert(out@ =~= state_json(entries));
    }
    out
}

/// Writes the JSON text of a balance.
pub fn encode_balance(amount: u128) -> (r: Vec<u8>)
    ensures
        r@ == balance_json(amount),
{
    let mut out: Vec<u8> = Vec::new();
    push_text(&mut out, "{\"balance\":");
    out.push(QUOTE);
    push_decimal(&mut out, amount);
    out.push(QUOTE);
    push_text(&mut out, "}");
    proof {
        assert(out@ =~= balance_json(amount));
    }
    out
}

/// Writes the JSON text of a transfer in the clear.
pub fn encode_transfer(transfer: &ClearTextTransferRequestMsg) -> (r: Vec<u8>)
    ensures
        r@ == transfer_json(transfer.sender@, transfer.receiver@, transfer.amount),
{
    let mut out: Vec<u8> = Vec::new();
    push_text(&mut out, "{\"sender\":");
    push_quoted(&mut out, transfer.sender.as_slice());
    push_text(&mut out, ",\"receiver\":");
    push_quoted(&mut out, transfer.receiver.as_slice());
    push_text(&mut out, ",\"amount\":");
    out.push(QUOTE);
    push_decimal(&mut out, transfer.amount);
    out.push(QUOTE);
    push_text(&mut out, "}");
    proof {
        assert(out@ =~= transfer_json(transfer.sender@, transfer.receiver@, transfer.amount));
    }
    out
}

/// Whether `text` stands in `bytes` at `at`.
pub open spec fn stands_at(bytes: Seq<u8>, at: int, text: Seq<u8>) -> bool {
    0 <= at && at + text.len() <= bytes.len() && bytes.subrange(at, at + text.len()) == text
}

/// The place of the first double quote of `bytes` at or after `from`, or the
/// length of `bytes` where there is none.
pub open spec fn quote_end(bytes: Seq<u8>, from: int) -> int
    decreases bytes.len() - from,
{
    if from < 0 || from >= bytes.len() {
        bytes.len() as int
    } else if bytes[from] == QUOTE {
        from
    } else {
        quote_end(bytes, from + 1)
    }
}

/// The plain text between double quotes that stands in `bytes` at `at`, and the
/// place after its closing quote.
pub open spec fn quoted_at(bytes: Seq<u8>, at: int) -> Option<(Seq<u8>, int)> {
    if 0 <= at < bytes.len() && bytes[at] == QUOTE && quote_end(bytes, at + 1) < bytes.len()
        && is_plain_text(bytes.subrange(at + 1, quote_end(bytes, at + 1))) {
        Some((bytes.subrange(at + 1, quote_end(bytes, at + 1)), quote_end(bytes, at + 1) + 1))
    } else {
        None
    }
}

/// The amount in decimal text between double quotes that stands in `bytes` at
/// `at`, and the place after its closing quote.
pub open spec fn amount_at(bytes: Seq<u8>, at: int) -> Option<(u128, int)> {
    match quoted_at(bytes, at) {
        Some((text, next)) => match parse_decimal_spec(text) {
            Some(amount) => Some((amount, next)),
            None => None,
        },
        None => None,
    }
}

/// The transfer that `bytes` are the JSON text of.
pub open spec fn parse_transfer_spec(bytes: Seq<u8>) -> Option<(Seq<u8>, Seq<u8>, u128)> {
    let a = "{\"sender\":".spec_bytes();
    let b = ",\"receiver\":".spec_bytes();
    let c = ",\"amount\":".spec_bytes();
    let d = "}".spec_bytes();
    if !stands_at(bytes, 0, a) {
        None
    } else {
        match quoted_at(bytes, a.len() as int) {
            None => None,
            Some((sender, p1)) => if !stands_at(bytes, p1, b) {
                None
            } else {
                match quoted_at(bytes, p1 + b.len()) {
                    None => None,
                    Some((receiver, p2)) => if !stands_at(bytes, p2, c) {
                        None
                    } else {
                        match amount_at(bytes, p2 + c.len()) {
                            None => None,
                            Some((amount, p3)) => if stands_at(bytes, p3, d) && p3 + d.len()
                                == bytes.len() {
                                Some((sender, receiver, amount))
                            } else {
                                None
                            },
                        }
                    },
                }
            },
        }
    }
}

/// The accounts that stand in `bytes` from `at` on, one after another with commas
/// between, up to the closing of the state; `found` are those read before `at`.
pub open spec fn entries_from(bytes: Seq<u8>, at: int, found: Seq<EntrySpec>) -> Option<
    Seq<EntrySpec>,
>
    decreases bytes.len() - at,
{
    match quoted_at(bytes, at) {
        None => None,
        Some((address, p1)) => if !stands_at(bytes, p1, ":".spec_bytes()) {
            None
        } else {
            match amount_at(bytes, p1 + ":".spec_bytes().len()) {
                None => None,
                Some((amount, p2)) => {
                    let all = found.push((address, amount));
                    if p2 < bytes.len() && bytes[p2] == COMMA && p2 + 1 > at {
                        entries_from(bytes, p2 + 1, all)
                    } else if stands_at(bytes, p2, "}}".spec_bytes()) && p2 + "}}".spec_bytes().len()
                        == bytes.len() {
                        Some(all)
                    } else {
                        None
                    }
                },
            }
        },
    }
}

/// The state that `bytes` are the JSON text of: its accounts, in ascending order
/// of address.
pub open spec fn parse_state_spec(bytes: Seq<u8>) -> Option<Seq<EntrySpec>> {
    let head = "{\"state\":{".spec_bytes();
    let tail = "}}".spec_bytes();
    if !stands_at(bytes, 0, head) {
        None
    } else if stands_at(bytes, head.len() as int, tail) && head.len() + tail.len() == bytes.len() {
        Some(Seq::<EntrySpec>::empty())
    } else {
        match entries_from(bytes, head.len() as int, Seq::<EntrySpec>::empty()) {
            Some(entries) => if ascending(entries) {
                Some(entries)
            } else {
                None
            },
            None => None,
        }
    }
}

/// The transfer that is read from `bytes`: the one whose text the bytes are as
/// the library writes it, or else the one that the bytes hold as JSON text in
/// another shape.
pub open spec fn read_transfer_spec(bytes: Seq<u8>) -> Option<(Seq<u8>, Seq<u8>, u128)> {
    match parse_transfer_spec(bytes) {
        Some(t) => Some(t),
        None => json_transfer_spec(bytes),
    }
}

/// The state that is read from `bytes`: the one whose text the bytes are as the
/// library writes it, or else the one that the bytes hold as JSON text in another
/// shape.
pub open spec fn read_state_spec(bytes: Seq<u8>) -> Option<Seq<EntrySpec>> {
    match parse_state_spec(bytes) {
        Some(entries) => Some(entries),
        None => json_state_spec(bytes),
    }
}

/// If `text` stands in `bytes` at `at`, the place after it.
fn take_text(bytes: &[u8], at: usize, text: &str) -> (r: Option<usize>)
    requires
        at <= bytes@.len(),
    ensures
        r.is_some() == stands_at(bytes@, at as int, text.spec_bytes()),
        r matches Some(next) ==> next == at + text.spec_bytes().len(),
{
    let t = text.as_bytes();
    if t.len() > bytes.len() - at {
        return None;
    }
    let part = copy_range(bytes, at, at + t.len());
    if bytes_eq(part.as_slice(), t) {
        Some(at + t.len())
    } else {
        None
    }
}

/// The place of the first double quote at or after `from`.
fn find_quote(bytes: &[u8], from: usize) -> (r: usize)
    requires
        from <= bytes@.len(),
    ensures
        r == quote_end(bytes@, from as int),
        from <= r <= bytes@.len(),
{
    let mut i: usize = from;
    while i < bytes.len() && bytes[i] != QUOTE
        invariant
            from <= i <= bytes@.len(),
            quote_end(bytes@, from as int) == quote_end(bytes@, i as int),
        decreases bytes@.len() - i,
    {
        i += 1;
    }
    i
}

/// Reads plain text between double quotes.
fn take_quoted(bytes: &[u8], at: usize) -> (r: Option<(Vec<u8>, usize)>)
    requires
        at <= bytes@.len(),
    ensures
        r.is_some() == quoted_at(bytes@, at as int).is_some(),
        r matches Some(found) ==> found.0@ == quoted_at(bytes@, at as int).unwrap().0 && found.1
            == quoted_at(bytes@, at as int).unwrap().1 && at < found.1 <= bytes@.len(),
{
    if at >= bytes.len() || bytes[at] != QUOTE {
        return None;
    }
    let end = find_quote(bytes, at + 1);
    if end >= bytes.len() {
        return None;
    }
    let text = copy_range(bytes, at + 1, end);
    if !check_plain_text(text.as_slice()) {
        return None;
    }
    Some((text, end + 1))
}

/// Reads an amount in decimal text between double quotes.
fn take_amount(bytes: &[u8], at: usize) -> (r: Option<(u128, usize)>)
    requires
        at <= bytes@.len(),
    ensures
        r.is_some() == amount_at(bytes@, at as int).is_some(),
        r matches Some(found) ==> found.0 == amount_at(bytes@, at as int).unwrap().0 && found.1
            == amount_at(bytes@, at as int).unwrap().1 && at < found.1 <= bytes@.len(),
{
    match take_quoted(bytes, at) {
        Some((text, next)) => match parse_decimal(text.as_slice()) {
            Some(amount) => Some((amount, next)),
            None => None,
        },
        None => None,
    }
}

/// Reads the JSON text of a transfer in the clear. The text that the library
/// writes reads back as what was written; other JSON text is read as an object
/// with the strings `sender`, `receiver` and `amount`. The addresses of a
/// transfer that is read are plain text.
pub fn parse_transfer(bytes: &[u8]) -> (r: Option<ClearTextTransferRequestMsg>)
    ensures
        r.is_some() == read_transfer_spec(bytes@).is_some(),
        r matches Some(t) ==> (t.sender@, t.receiver@, t.amount) == read_transfer_spec(
            bytes@,
        ).unwrap(),
        r matches Some(t) ==> is_plain_text(t.sender@) && is_plain_text(t.receiver@),
        parse_transfer_spec(bytes@) is Some ==> (r matches Some(t) && transfer_json(
            t.sender@,
            t.receiver@,
            t.amount,
        ) == bytes@),
        r is None ==> forall|sender: Seq<u8>, receiver: Seq<u8>, amount: u128|
            is_plain_text(sender) && is_plain_text(receiver) ==> #[trigger] transfer_json(
                sender,
                receiver,
                amount,
            ) != bytes@,
{
    match read_transfer(bytes) {
        Some(t) => {
            proof {
                lemma_transfer_read_is_plain(bytes@);
                lemma_transfer_read_is_written(bytes@);
            }
            Some(t)
        },
        None => {
            proof {
                assert forall|sender: Seq<u8>, receiver: Seq<u8>, amount: u128|
                    is_plain_text(sender) && is_plain_text(receiver) implies #[trigger] transfer_json(
                    sender,
                    receiver,
                    amount,
                ) != bytes@ by {
                    lemma_transfer_round_trip(sender, receiver, amount);
                }
                lemma_read_transfer_is_plain(bytes@);
            }
            read_json_transfer(bytes)
        },
    }
}

fn read_transfer(bytes: &[u8]) -> (r: Option<ClearTextTransferRequestMsg>)
    ensures
        r.is_some() == parse_transfer_spec(bytes@).is_some(),
        r matches Some(t) ==> (t.sender@, t.receiver@, t.amount) == parse_transfer_spec(
            bytes@,
        ).unwrap(),
{
    let p0 = match take_text(bytes, 0, "{\"sender\":") {
        Some(p) => p,
        None => {
            return None;
        },
    };
    let (sender, p1) = match take_quoted(bytes, p0) {
        Some(f) => f,
        None => {
            return None;
        },
    };
    let p1 = match take_text(bytes, p1, ",\"receiver\":") {
        Some(p) => p,
        None => {
            return None;
        },
    };
    let (receiver, p2) = match take_quoted(bytes, p1) {
        Some(f) => f,
        None => {
            return None;
        },
    };
    let p2 = match take_text(bytes, p2, ",\"amount\":") {
        Some(p) => p,
        None => {
            return None;
        },
    };
    let (amount, p3) = match take_amount(bytes, p2) {
        Some(f) => f,
        None => {
            return None;
        },
    };
    match take_text(bytes, p3, "}") {
        Some(end) => if end == bytes.len() {
            Some(ClearTextTransferRequestMsg { sender, receiver, amount })
        } else {
            None
        },
        None => None,
    }
}

/// Reads the JSON text of the state. The text that the library writes reads back
/// as what was written; other JSON text is read as an object whose field `state`
/// is an object of amounts by address. The accounts of a state that is
/// read are in ascending order, with plain addresses.
pub fn parse_state(bytes: &[u8]) -> (r: Option<Balances>)
    ensures
        r.is_some() == read_state_spec(bytes@).is_some(),
        r matches Some(b) ==> b.wf() && b.entries() == read_state_spec(bytes@).unwrap(),
        r matches Some(b) ==> keys_are_plain(b.entries()),
        parse_state_spec(bytes@) is Some ==> (r matches Some(b) && state_json(b.entries())
            == bytes@),
        r is None ==> forall|entries: Seq<EntrySpec>|
            ascending(entries) && keys_are_plain(entries) ==> #[trigger] state_json(entries)
                != bytes@,
{
    match read_state(bytes) {
        Some(b) => {
            proof {
                lemma_state_read_is_valid(bytes@);
                lemma_state_read_is_written(bytes@);
            }
            Some(b)
        },
        None => {
            proof {
                assert forall|entries: Seq<EntrySpec>|
                    ascending(entries) && keys_are_plain(entries) implies #[trigger] state_json(
                    entries,
                ) != bytes@ by {
                    lemma_state_round_trip(entries);
                }
                lemma_read_state_is_valid(bytes@);
            }
            read_json_state(bytes)
        },
    }
}

fn read_state(bytes: &[u8]) -> (r: Option<Balances>)
    ensures
        r.is_some() == parse_state_spec(bytes@).is_some(),
        r matches Some(b) ==> b.wf() && b.entries() == parse_state_spec(bytes@).unwrap(),
{
    let start = match take_text(bytes, 0, "{\"state\":{") {
        Some(p) => p,
        None => {
            return None;
        },
    };
    match take_text(bytes, start, "}}") {
        Some(end) => if end == bytes.len() {
            return Some(Balances::new());
        },
        None => {},
    }
    let mut entries: Vec<(Vec<u8>, u128)> = Vec::new();
    let mut at: usize = start;
    let ghost goal = entries_from(bytes@, start as int, Seq::<EntrySpec>::empty());
    proof {
        assert(entry_views(entries@) =~= Seq::<EntrySpec>::empty());
    }
    loop
        invariant
            at <= bytes@.len(),
            goal == entries_from(bytes@, at as int, entry_views(entries@)),
            goal == entries_from(bytes@, start as int, Seq::<EntrySpec>::empty()),
            stands_at(bytes@, 0, "{\"state\":{".spec_bytes()),
            start == "{\"state\":{".spec_bytes().len(),
            !(stands_at(bytes@, start as int, "}}".spec_bytes()) && start + "}}".spec_bytes().len()
                == bytes@.len()),
        decreases bytes@.len() - at,
    {
        let (address, p1) = match take_quoted(bytes, at) {
            Some(f) => f,
            None => {
                return None;
            },
        };
        let p1 = match take_text(bytes, p1, ":") {
            Some(p) => p,
            None => {
                return None;
            },
        };
        let (amount, p2) = match take_amount(bytes, p1) {
            Some(f) => f,
            None => {
                return None;
            },
        };
        let ghost before = entry_views(entries@);
        let ghost address_view = address@;
        entries.push((address, amount));
        proof {
            assert(entry_views(entries@) =~= before.push((address_view, amount)));
        }
        if p2 < bytes.len() && bytes[p2] == COMMA {
            at = p2 + 1;
        } else {
            match take_text(bytes, p2, "}}") {
                Some(end) => if end == bytes.len() {
                    return Balances::from_entries(entries);
                } else {
                    return None;
                },
                None => {
                    return None;
                },
            }
        }
    }
}

/// The first double quote at or after `from` is at `at`, if there is one at `at`
/// and none before it.
proof fn lemma_quote_end(bytes: Seq<u8>, from: int, at: int)
    requires
        0 <= from <= at < bytes.len(),
        bytes[at] == QUOTE,
        forall|k: int| from <= k < at ==> bytes[k] != QUOTE,
    ensures
        quote_end(bytes, from) == at,
    decreases at - from,
{
    if from < at {
        lemma_quote_end(bytes, from + 1, at);
    }
}

/// Plain text between double quotes is read back as it is.
pub proof fn lemma_quoted_at(head: Seq<u8>, text: Seq<u8>, rest: Seq<u8>)
    requires
        is_plain_text(text),
    ensures
        quoted_at(head + quoted(text) + rest, head.len() as int) == Some(
            (text, (head.len() + text.len() + 2) as int),
        ),
{
    let bytes = head + quoted(text) + rest;
    let at = head.len() as int;
    let end = at + 1 + text.len();
    assert(bytes[at] == QUOTE);
    assert(bytes[end] == QUOTE);
    assert forall|k: int| at + 1 <= k < end implies bytes[k] != QUOTE by {
        assert(bytes[k] == text[k - at - 1]);
    }
    lemma_quote_end(bytes, at + 1, end);
    assert(bytes.subrange(at + 1, end) =~= text);
}

/// An amount between double quotes is read back as it is.
pub proof fn lemma_amount_at(head: Seq<u8>, amount: u128, rest: Seq<u8>)
    ensures
        amount_at(head + quoted(decimal_spec(amount as nat)) + rest, head.len() as int) == Some(
            (amount, (head.len() + decimal_spec(amount as nat).len() + 2) as int),
        ),
{
    let text = decimal_spec(amount as nat);
    crate::decimal::lemma_decimal_round_trip(amount as nat);
    assert(is_plain_text(text)) by {
        assert forall|i: int| 0 <= i < text.len() implies crate::wire::is_plain_byte(
            #[trigger] text[i],
        ) by {
            assert(crate::decimal::is_digit(text[i]));
        }
    }
    lemma_quoted_at(head, text, rest);
}

/// A text stands where it was written.
proof fn lemma_stands_at(head: Seq<u8>, text: Seq<u8>, rest: Seq<u8>)
    ensures
        stands_at(head + text + rest, head.len() as int, text),
{
    let bytes = head + text + rest;
    assert(bytes.subrange(head.len() as int, (head.len() + text.len()) as int) =~= text);
}

/// The text of a transfer is read back as the transfer it was written from.
pub proof fn lemma_transfer_round_trip(sender: Seq<u8>, receiver: Seq<u8>, amount: u128)
    requires
        is_plain_text(sender),
        is_plain_text(receiver),
    ensures
        parse_transfer_spec(transfer_json(sender, receiver, amount)) == Some(
            (sender, receiver, amount),
        ),
{
    let a = "{\"sender\":".spec_bytes();
    let b = ",\"receiver\":".spec_bytes();
    let c = ",\"amount\":".spec_bytes();
    let d = "}".spec_bytes();
    let qs = quoted(sender);
    let qr = quoted(receiver);
    let qd = quoted(decimal_spec(amount as nat));
    let bytes = transfer_json(sender, receiver, amount);
    let empty = Seq::<u8>::empty();

    assert(bytes =~= empty + a + (qs + b + qr + c + qd + d));
    lemma_stands_at(empty, a, qs + b + qr + c + qd + d);

    assert(bytes =~= a + qs + (b + qr + c + qd + d));
    lemma_quoted_at(a, sender, b + qr + c + qd + d);
    let p1 = a.len() + sender.len() + 2;
    assert((a + qs).len() == p1);

    assert(bytes =~= (a + qs) + b + (qr + c + qd + d));
    lemma_stands_at(a + qs, b, qr + c + qd + d);

    assert(bytes =~= (a + qs + b) + qr + (c + qd + d));
    lemma_quoted_at(a + qs + b, receiver, c + qd + d);
    let p2 = p1 + b.len() + receiver.len() + 2;
    assert((a + qs + b + qr).len() == p2);

    assert(bytes =~= (a + qs + b + qr) + c + (qd + d));
    lemma_stands_at(a + qs + b + qr, c, qd + d);

    assert(bytes =~= (a + qs + b + qr + c) + qd + d);
    lemma_amount_at(a + qs + b + qr + c, amount, d);
    let p3 = p2 + c.len() + decimal_spec(amount as nat).len() + 2;
    assert((a + qs + b + qr + c + qd).len() == p3);

    assert(bytes =~= (a + qs + b + qr + c + qd) + d + empty);
    lemma_stands_at(a + qs + b + qr + c + qd, d, empty);
    assert(p3 + d.len() == bytes.len());
}

/// The texts of the accounts of a state.
pub open spec fn entry_texts(entries: Seq<EntrySpec>) -> Seq<Seq<u8>> {
    Seq::new(entries.len(), |i: int| entry_json(entries[i]))
}

/// Whether the addresses of all accounts can be written as JSON strings as they
/// are.
pub open spec fn keys_are_plain(entries: Seq<EntrySpec>) -> bool {
    forall|i: int| 0 <= i < entries.len() ==> is_plain_text((#[trigger] entries[i]).0)
}

/// A joined list of two or more texts is its first text, a comma, and the rest
/// joined.
pub proof fn lemma_joined_first(items: Seq<Seq<u8>>)
    requires
        items.len() >= 2,
    ensures
        joined(items) == items[0] + seq![COMMA] + joined(items.drop_first()),
    decreases items.len(),
{
    let init = items.drop_last();
    let rest = items.drop_first();
    assert(joined(items) == joined(init) + seq![COMMA] + items.last());
    if items.len() == 2 {
        assert(init.len() == 1 && init[0] == items[0]);
        assert(rest.len() == 1 && rest[0] == items.last());
        assert(joined(init) == init[0]);
        assert(joined(rest) == rest[0]);
    } else {
        lemma_joined_first(init);
        assert(init.drop_first() =~= rest.drop_last());
        assert(rest.last() == items.last());
        assert(init[0] == items[0]);
        assert(joined(rest) == joined(rest.drop_last()) + seq![COMMA] + rest.last());
        assert(joined(items) =~= items[0] + seq![COMMA] + joined(rest));
    }
}

/// The closing of a state is two braces.
proof fn lemma_closing()
    ensures
        "}}".spec_bytes() == seq![125u8, 125u8],
{
    reveal_strlit("}}");
    assert(is_ascii("}}")) by {
        assert(vstd::utf8::is_ascii_chars("}}"@));
    }
    is_ascii_spec_bytes("}}");
    assert("}}".spec_bytes() =~= seq![125u8, 125u8]);
}

/// One account of a state is read back as it is, whatever follows it.
proof fn lemma_entry_read(head: Seq<u8>, entry: EntrySpec, after: Seq<u8>)
    requires
        is_plain_text(entry.0),
    ensures
        ({
            let bytes = head + entry_json(entry) + after;
            let p1 = head.len() + entry.0.len() + 2;
            let p2 = head.len() + entry_json(entry).len();
            &&& quoted_at(bytes, head.len() as int) == Some((entry.0, p1 as int))
            &&& stands_at(bytes, p1 as int, ":".spec_bytes())
            &&& amount_at(bytes, (p1 + ":".spec_bytes().len()) as int) == Some((entry.1, p2 as int))
            &&& p2 <= bytes.len()
            &&& p2 > head.len()
        }),
{
    let colon = ":".spec_bytes();
    let qa = quoted(entry.0);
    let qd = quoted(decimal_spec(entry.1 as nat));
    let bytes = head + entry_json(entry) + after;
    assert(bytes =~= head + qa + (colon + qd + after));
    lemma_quoted_at(head, entry.0, colon + qd + after);
    assert(bytes =~= (head + qa) + colon + (qd + after));
    lemma_stands_at(head + qa, colon, qd + after);
    assert(bytes =~= (head + qa + colon) + qd + after);
    lemma_amount_at(head + qa + colon, entry.1, after);
}

/// The last account of a state is read back, and the state closes after it.
proof fn lemma_last_entry(head: Seq<u8>, entry: EntrySpec, found: Seq<EntrySpec>)
    requires
        is_plain_text(entry.0),
    ensures
        entries_from(head + entry_json(entry) + "}}".spec_bytes(), head.len() as int, found)
            == Some(found.push(entry)),
{
    let tail = "}}".spec_bytes();
    let bytes = head + entry_json(entry) + tail;
    let p2 = (head.len() + entry_json(entry).len()) as int;
    lemma_closing();
    lemma_entry_read(head, entry, tail);
    assert(bytes[p2] == tail[0]);
    assert(bytes =~= (head + entry_json(entry)) + tail + Seq::<u8>::empty());
    lemma_stands_at(head + entry_json(entry), tail, Seq::<u8>::empty());
    assert(p2 + tail.len() == bytes.len());
}

/// An account of a state that a comma follows is read back, and reading goes on
/// after the comma.
proof fn lemma_inner_entry(head: Seq<u8>, entry: EntrySpec, after: Seq<u8>, found: Seq<EntrySpec>)
    requires
        is_plain_text(entry.0),
    ensures
        entries_from(head + entry_json(entry) + seq![COMMA] + after, head.len() as int, found)
            == entries_from(
            head + entry_json(entry) + seq![COMMA] + after,
            (head.len() + entry_json(entry).len() + 1) as int,
            found.push(entry),
        ),
{
    let bytes = head + entry_json(entry) + seq![COMMA] + after;
    let p2 = (head.len() + entry_json(entry).len()) as int;
    assert(bytes =~= head + entry_json(entry) + (seq![COMMA] + after));
    lemma_entry_read(head, entry, seq![COMMA] + after);
    assert(bytes[p2] == COMMA);
}

/// The accounts of a state are read back one after another.
#[verifier::rlimit(60)]
#[verifier::spinoff_prover]
proof fn lemma_entries_from(head: Seq<u8>, entries: Seq<EntrySpec>, found: Seq<EntrySpec>)
    requires
        entries.len() >= 1,
        keys_are_plain(entries),
    ensures
        entries_from(
            head + joined(entry_texts(entries)) + "}}".spec_bytes(),
            head.len() as int,
            found,
        ) == Some(found + entries),
    decreases entries.len(),
{
    let tail = "}}".spec_bytes();
    let items = entry_texts(entries);
    let e = entries[0];
    assert(items[0] == entry_json(e));
    assert(is_plain_text(e.0));
    if entries.len() == 1 {
        assert(joined(items) == items[0]);
        lemma_last_entry(head, e, found);
        assert(found.push(e) =~= found + entries);
    } else {
        let rest = entries.drop_first();
        assert(items.drop_first() =~= entry_texts(rest));
        lemma_joined_first(items);
        let after = joined(entry_texts(rest)) + tail;
        let bytes = head + entry_json(e) + seq![COMMA] + after;
        assert(head + joined(items) + tail =~= bytes);
        lemma_inner_entry(head, e, after, found);
        let next_head = head + entry_json(e) + seq![COMMA];
        assert(bytes =~= next_head + joined(entry_texts(rest)) + tail);
        assert(keys_are_plain(rest)) by {
            assert forall|i: int| 0 <= i < rest.len() implies is_plain_text(
                (#[trigger] rest[i]).0,
            ) by {
                assert(rest[i] == entries[i + 1]);
            }
        }
        lemma_entries_from(next_head, rest, found.push(e));
        assert(found.push(e) + rest =~= found + entries);
    }
}

/// The text of a state is read back as the state it was written from.
pub proof fn lemma_state_round_trip(entries: Seq<EntrySpec>)
    requires
        ascending(entries),
        keys_are_plain(entries),
    ensures
        parse_state_spec(state_json(entries)) == Some(entries),
{
    let head = "{\"state\":{".spec_bytes();
    let tail = "}}".spec_bytes();
    let items = entry_texts(entries);
    let bytes = state_json(entries);
    let empty = Seq::<u8>::empty();
    assert(bytes =~= head + joined(items) + tail);
    assert(bytes =~= empty + head + (joined(items) + tail));
    lemma_stands_at(empty, head, joined(items) + tail);
    lemma_closing();
    if entries.len() == 0 {
        assert(joined(items) =~= empty);
        assert(bytes =~= head + tail + empty);
        lemma_stands_at(head, tail, empty);
        assert(entries =~= Seq::<EntrySpec>::empty());
    } else {
        assert(joined(items).len() > 0) by {
            let last = items.last();
            assert(last == entry_json(entries.last()));
            assert(last.len() > 0);
            if items.len() >= 2 {
                assert(joined(items) == joined(items.drop_last()) + seq![COMMA] + last);
            }
        }
        lemma_entries_from(head, entries, Seq::<EntrySpec>::empty());
        assert(Seq::<EntrySpec>::empty() + entries =~= entries);
    }
}

/// The accounts that are read of a state have addresses that can be written as
/// they are.
proof fn lemma_entries_read_are_plain(bytes: Seq<u8>, at: int, found: Seq<EntrySpec>)
    requires
        keys_are_plain(found),
        entries_from(bytes, at, found) is Some,
    ensures
        keys_are_plain(entries_from(bytes, at, found).unwrap()),
    decreases bytes.len() - at,
{
    let (address, p1) = quoted_at(bytes, at).unwrap();
    let (amount, p2) = amount_at(bytes, p1 + ":".spec_bytes().len()).unwrap();
    let all = found.push((address, amount));
    assert(keys_are_plain(all)) by {
        assert forall|i: int| 0 <= i < all.len() implies is_plain_text((#[trigger] all[i]).0) by {
            if i < found.len() {
                assert(all[i] == found[i]);
            }
        }
    }
    if p2 < bytes.len() && bytes[p2] == COMMA && p2 + 1 > at {
        lemma_entries_read_are_plain(bytes, p2 + 1, all);
    }
}

/// A state that is read has its accounts in ascending order, with addresses that
/// can be written as they are: it is a state that can be written again.
pub proof fn lemma_state_read_is_valid(bytes: Seq<u8>)
    requires
        parse_state_spec(bytes) is Some,
    ensures
        ascending(parse_state_spec(bytes).unwrap()),
        keys_are_plain(parse_state_spec(bytes).unwrap()),
{
    let head = "{\"state\":{".spec_bytes();
    let tail = "}}".spec_bytes();
    if !(stands_at(bytes, head.len() as int, tail) && head.len() + tail.len() == bytes.len()) {
        lemma_entries_read_are_plain(bytes, head.len() as int, Seq::<EntrySpec>::empty());
    }
}

/// A transfer that is read has addresses that can be written as they are.
pub proof fn lemma_transfer_read_is_plain(bytes: Seq<u8>)
    requires
        parse_transfer_spec(bytes) is Some,
    ensures
        is_plain_text(parse_transfer_spec(bytes).unwrap().0),
        is_plain_text(parse_transfer_spec(bytes).unwrap().1),
{
}

/// A transfer that is read, in whatever shape, has addresses that can be written
/// as they are.
pub proof fn lemma_read_transfer_is_plain(bytes: Seq<u8>)
    ensures
        read_transfer_spec(bytes) matches Some(t) ==> is_plain_text(t.0) && is_plain_text(t.1),
{
}

/// A state that is read, in whatever shape, has its accounts in ascending order,
/// with addresses that can be written as they are.
pub proof fn lemma_read_state_is_valid(bytes: Seq<u8>)
    ensures
        read_state_spec(bytes) matches Some(entries) ==> ascending(entries) && keys_are_plain(
            entries,
        ),
{
    if parse_state_spec(bytes) is Some {
        lemma_state_read_is_valid(bytes);
    } else if json_state_spec(bytes) is Some {
        let tables = json_tables_spec(bytes).unwrap();
        let p = last_named(names_of(tables), "state".spec_bytes()).unwrap();
        lemma_rows_are_plain(tables[p].1.unwrap());
    }
}

/// What is read between double quotes stands between them in the bytes.
proof fn lemma_quoted_read(bytes: Seq<u8>, at: int)
    requires
        quoted_at(bytes, at) is Some,
    ensures
        at < quoted_at(bytes, at).unwrap().1 <= bytes.len(),
        bytes.subrange(at, quoted_at(bytes, at).unwrap().1) == quoted(quoted_at(bytes, at).unwrap().0),
        is_plain_text(quoted_at(bytes, at).unwrap().0),
{
    let end = quote_end(bytes, at + 1);
    lemma_quote_end_is_quote(bytes, at + 1);
    assert(bytes.subrange(at, end + 1) =~= quoted(bytes.subrange(at + 1, end)));
}

/// The place that `quote_end` gives is not before where the search began, and
/// holds a double quote where it is within the bytes.
proof fn lemma_quote_end_is_quote(bytes: Seq<u8>, from: int)
    requires
        0 <= from,
    ensures
        from <= quote_end(bytes, from) || quote_end(bytes, from) == bytes.len(),
        quote_end(bytes, from) <= bytes.len(),
        quote_end(bytes, from) < bytes.len() ==> bytes[quote_end(bytes, from)] == QUOTE && from
            <= quote_end(bytes, from),
    decreases bytes.len() - from,
{
    if from < bytes.len() && bytes[from] != QUOTE {
        lemma_quote_end_is_quote(bytes, from + 1);
    }
}

/// An amount that is read stands in the bytes as its decimal text between double
/// quotes.
proof fn lemma_amount_read(bytes: Seq<u8>, at: int)
    requires
        amount_at(bytes, at) is Some,
    ensures
        at < amount_at(bytes, at).unwrap().1 <= bytes.len(),
        bytes.subrange(at, amount_at(bytes, at).unwrap().1) == quoted(
            decimal_spec(amount_at(bytes, at).unwrap().0 as nat),
        ),
{
    lemma_quoted_read(bytes, at);
    let text = quoted_at(bytes, at).unwrap().0;
    crate::decimal::lemma_decimal_is_canonical(text);
}

/// Three stretches of bytes that follow one another are one stretch.
proof fn lemma_stretches(bytes: Seq<u8>, a: int, b: int, c: int)
    requires
        0 <= a <= b <= c <= bytes.len(),
    ensures
        bytes.subrange(a, c) == bytes.subrange(a, b) + bytes.subrange(b, c),
{
    assert(bytes.subrange(a, c) =~= bytes.subrange(a, b) + bytes.subrange(b, c));
}

/// A transfer that is read is the transfer whose text the bytes are.
pub proof fn lemma_transfer_read_is_written(bytes: Seq<u8>)
    requires
        parse_transfer_spec(bytes) is Some,
    ensures
        transfer_json(
            parse_transfer_spec(bytes).unwrap().0,
            parse_transfer_spec(bytes).unwrap().1,
            parse_transfer_spec(bytes).unwrap().2,
        ) == bytes,
{
    let a = "{\"sender\":".spec_bytes();
    let b = ",\"receiver\":".spec_bytes();
    let c = ",\"amount\":".spec_bytes();
    let d = "}".spec_bytes();
    let p0 = a.len() as int;
    let (sender, p1) = quoted_at(bytes, p0).unwrap();
    let q1 = p1 + b.len();
    let (receiver, p2) = quoted_at(bytes, q1).unwrap();
    let q2 = p2 + c.len();
    let (amount, p3) = amount_at(bytes, q2).unwrap();
    lemma_quoted_read(bytes, p0);
    lemma_quoted_read(bytes, q1);
    lemma_amount_read(bytes, q2);
    let end = bytes.len() as int;
    lemma_stretches(bytes, 0, p0, p1);
    lemma_stretches(bytes, 0, p1, q1);
    lemma_stretches(bytes, 0, q1, p2);
    lemma_stretches(bytes, 0, p2, q2);
    lemma_stretches(bytes, 0, q2, p3);
    lemma_stretches(bytes, 0, p3, end);
    assert(bytes.subrange(0, end) =~= bytes);
}

/// The text of the accounts that were read so far, up to where the next account
/// begins.
spec fn written_so_far(found: Seq<EntrySpec>) -> Seq<u8> {
    if found.len() == 0 {
        Seq::<u8>::empty()
    } else {
        joined(entry_texts(found)) + seq![COMMA]
    }
}

/// The joined texts of accounts with one more account.
proof fn lemma_joined_push(found: Seq<EntrySpec>, entry: EntrySpec)
    ensures
        joined(entry_texts(found.push(entry))) == written_so_far(found) + entry_json(entry),
{
    let all = found.push(entry);
    let items = entry_texts(all);
    assert(items.last() == entry_json(entry));
    assert(items.drop_last() =~= entry_texts(found));
    if found.len() == 0 {
        assert(joined(items) == items[0]);
        assert(joined(items) =~= Seq::<u8>::empty() + entry_json(entry));
    }
}

/// An account that is read stands in the bytes as its text.
proof fn lemma_entry_read_is_written(bytes: Seq<u8>, at: int)
    requires
        quoted_at(bytes, at) is Some,
        stands_at(bytes, quoted_at(bytes, at).unwrap().1, ":".spec_bytes()),
        amount_at(bytes, quoted_at(bytes, at).unwrap().1 + ":".spec_bytes().len()) is Some,
    ensures
        ({
            let p1 = quoted_at(bytes, at).unwrap().1;
            let found = amount_at(bytes, p1 + ":".spec_bytes().len()).unwrap();
            &&& at < found.1 <= bytes.len()
            &&& bytes.subrange(at, found.1) == entry_json((quoted_at(bytes, at).unwrap().0, found.0))
        }),
{
    let p1 = quoted_at(bytes, at).unwrap().1;
    let q1 = p1 + ":".spec_bytes().len();
    let p2 = amount_at(bytes, q1).unwrap().1;
    lemma_quoted_read(bytes, at);
    lemma_amount_read(bytes, q1);
    lemma_stretches(bytes, at, p1, q1);
    lemma_stretches(bytes, at, q1, p2);
}

/// The accounts that are read from a place on stand in the bytes as their joined
/// texts, up to the closing of the state at the end of the bytes.
proof fn lemma_entries_read_are_written(bytes: Seq<u8>, start: int, at: int, found: Seq<EntrySpec>)
    requires
        0 <= start <= at <= bytes.len(),
        bytes.subrange(start, at) == written_so_far(found),
        entries_from(bytes, at, found) is Some,
    ensures
        bytes.subrange(start, bytes.len() as int) == joined(
            entry_texts(entries_from(bytes, at, found).unwrap()),
        ) + "}}".spec_bytes(),
    decreases bytes.len() - at,
{
    let (address, p1) = quoted_at(bytes, at).unwrap();
    let (amount, p2) = amount_at(bytes, p1 + ":".spec_bytes().len()).unwrap();
    let entry = (address, amount);
    let all = found.push(entry);
    lemma_entry_read_is_written(bytes, at);
    lemma_joined_push(found, entry);
    lemma_stretches(bytes, start, at, p2);
    assert(bytes.subrange(start, p2) == joined(entry_texts(all)));
    if p2 < bytes.len() && bytes[p2] == COMMA && p2 + 1 > at {
        lemma_stretches(bytes, start, p2, p2 + 1);
        assert(bytes.subrange(p2, p2 + 1) =~= seq![COMMA]);
        lemma_entries_read_are_written(bytes, start, p2 + 1, all);
    } else {
        lemma_stretches(bytes, start, p2, bytes.len() as int);
    }
}

/// A state that is read is the state whose text the bytes are.
pub proof fn lemma_state_read_is_written(bytes: Seq<u8>)
    requires
        parse_state_spec(bytes) is Some,
    ensures
        state_json(parse_state_spec(bytes).unwrap()) == bytes,
{
    let head = "{\"state\":{".spec_bytes();
    let tail = "}}".spec_bytes();
    let start = head.len() as int;
    let end = bytes.len() as int;
    let entries = parse_state_spec(bytes).unwrap();
    lemma_stretches(bytes, 0, start, end);
    assert(bytes.subrange(0, end) =~= bytes);
    if stands_at(bytes, start, tail) && head.len() + tail.len() == bytes.len() {
        assert(joined(entry_texts(entries)) =~= Seq::<u8>::empty());
        assert(state_json(entries) =~= head + tail);
    } else {
        assert(bytes.subrange(start, start) =~= Seq::<u8>::empty());
        lemma_entries_read_are_written(bytes, start, start, Seq::<EntrySpec>::empty());
        assert(state_json(entries) =~= head + (joined(entry_texts(entries)) + tail));
    }
}

} // verus!
