//! JSON text in other shapes than the library writes: objects, read by
//! `serde_json` as maps, and what the library takes from them. A name that an
//! object holds twice counts as it stands last.

use vstd::prelude::*;
use vstd::string::*;
use crate::balances::{ascending, entry_views, Balances, EntrySpec};
use crate::bytes::{bytes_eq, copy_bytes, copy_range};
use crate::decimal::{parse_decimal, parse_decimal_spec};
use crate::messages::ClearTextTransferRequestMsg;
use crate::wire::{check_plain_text, is_plain_text};

verus! {

/// A row of an object of strings as values: its name and its text.
pub type RowSpec = (Seq<u8>, Seq<u8>);

/// A field of an object as values: its name, and its text where its value is a
/// string.
pub type FieldSpec = (Seq<u8>, Option<Seq<u8>>);

/// A field of an object as values: its name, and its rows where its value is an
/// object of strings.
pub type TableSpec = (Seq<u8>, Option<Seq<RowSpec>>);

/// The fields that `serde_json` reads from `bytes` as an object, each with its
/// text where its value is a string; none where the bytes are no JSON text of
/// an object.
pub uninterp spec fn json_strings_spec(bytes: Seq<u8>) -> Option<Seq<FieldSpec>>;

/// The fields that `serde_json` reads from `bytes` as an object, each with its
/// rows where its value is an object of strings; none where the bytes are no
/// JSON text of an object.
pub uninterp spec fn json_tables_spec(bytes: Seq<u8>) -> Option<Seq<TableSpec>>;

/// Rows as values.
pub open spec fn row_views(rows: Seq<(Vec<u8>, Vec<u8>)>) -> Seq<RowSpec> {
    Seq::new(rows.len(), |i: int| (rows[i].0@, rows[i].1@))
}

/// A field as values.
pub open spec fn field_view(field: (Vec<u8>, Option<Vec<u8>>)) -> FieldSpec {
    (
        field.0@,
        match field.1 {
            Some(text) => Some(text@),
            None => None,
        },
    )
}

/// Fields as values.
pub open spec fn field_views(fields: Seq<(Vec<u8>, Option<Vec<u8>>)>) -> Seq<FieldSpec> {
    Seq::new(fields.len(), |i: int| field_view(fields[i]))
}

/// A field whose value may be an object of strings, as values.
pub open spec fn table_view(table: (Vec<u8>, Option<Vec<(Vec<u8>, Vec<u8>)>>)) -> TableSpec {
    (
        table.0@,
        match table.1 {
            Some(rows) => Some(row_views(rows@)),
            None => None,
        },
    )
}

/// Fields whose values may be objects of strings, as values.
pub open spec fn table_views(
    tables: Seq<(Vec<u8>, Option<Vec<(Vec<u8>, Vec<u8>)>>)>,
) -> Seq<TableSpec> {
    Seq::new(tables.len(), |i: int| table_view(tables[i]))
}

/// `serde_json::from_slice` at the type of a map from strings to
/// `serde_json::Value`, each value handed on as its text where it is a string:
/// the result is what the name above says of the bytes. Nothing is claimed of
/// which texts are read, nor of what is read from them.
#[verifier::external_body]
fn json_strings(bytes: &[u8]) -> (r: Option<Vec<(Vec<u8>, Option<Vec<u8>>)>>)
    ensures
        match r {
            Some(fields) => json_strings_spec(bytes@) == Some(field_views(fields@)),
            None => json_strings_spec(bytes@) is None,
        },
{
    let read: std::collections::BTreeMap<String, serde_json::Value> =
        serde_json::from_slice(bytes).ok()?;
    Some(read.into_iter().map(|(name, value)| (name.into_bytes(), match value {
        serde_json::Value::String(text) => Some(text.into_bytes()),
        _ => None,
    })).collect())
}

/// `serde_json::from_slice` at the type of a map from strings to
/// `serde_json::Value`, each value handed on as what `serde_json::from_value`
/// reads from it as a map from strings to strings: the result is what the name
/// above says of the bytes. Nothing is claimed of which texts are read, nor of
/// what is read from them.
#[verifier::external_body]
fn json_tables(bytes: &[u8]) -> (r: Option<Vec<(Vec<u8>, Option<Vec<(Vec<u8>, Vec<u8>)>>)>>)
    ensures
        match r {
            Some(tables) => json_tables_spec(bytes@) == Some(table_views(tables@)),
            None => json_tables_spec(bytes@) is None,
        },
{
    let read: std::collections::BTreeMap<String, serde_json::Value> =
        serde_json::from_slice(bytes).ok()?;
    Some(read.into_iter().map(|(name, value)| (name.into_bytes(),
        serde_json::from_value::<std::collections::BTreeMap<String, String>>(value).ok().map(
            |rows| rows.into_iter().map(|(k, v)| (k.into_bytes(), v.into_bytes())).collect()),
    )).collect())
}

/// The last place among `names` at which `name` stands.
pub open spec fn last_named(names: Seq<Seq<u8>>, name: Seq<u8>) -> Option<int>
    decreases names.len(),
{
    if names.len() == 0 {
        None
    } else if names.last() == name {
        Some(names.len() - 1)
    } else {
        last_named(names.drop_last(), name)
    }
}

/// The names of fields.
pub open spec fn names_of<V>(fields: Seq<(Seq<u8>, V)>) -> Seq<Seq<u8>> {
    Seq::new(fields.len(), |i: int| fields[i].0)
}

/// The text of the field `name`, where there is such a field and its value is a
/// string.
pub open spec fn text_of(fields: Seq<FieldSpec>, name: Seq<u8>) -> Option<Seq<u8>> {
    match last_named(names_of(fields), name) {
        Some(p) => fields[p].1,
        None => None,
    }
}

/// Digits without the zeros that lead them; a single zero stays.
pub open spec fn bare_digits(text: Seq<u8>) -> Seq<u8>
    decreases text.len(),
{
    if text.len() > 1 && text[0] == 48 {
        bare_digits(text.subrange(1, text.len() as int))
    } else {
        text
    }
}

/// Text without the plus sign that may lead it.
pub open spec fn unsigned_text(text: Seq<u8>) -> Seq<u8> {
    if text.len() > 0 && text[0] == 43 {
        text.subrange(1, text.len() as int)
    } else {
        text
    }
}

/// The amount that a string stands for: digits, which a plus sign and zeros may
/// lead, of a number that fits 128 bits.
pub open spec fn number_spec(text: Seq<u8>) -> Option<u128> {
    parse_decimal_spec(bare_digits(unsigned_text(text)))
}

/// Reads the amount that a string stands for.
pub fn read_number(text: &[u8]) -> (r: Option<u128>)
    ensures
        r == number_spec(text@),
{
    let mut i: usize = if text.len() > 0 && text[0] == 43 {
        1
    } else {
        0
    };
    proof {
        assert(unsigned_text(text@) =~= text@.subrange(i as int, text@.len() as int));
    }
    while text.len() - i > 1 && text[i] == 48
        invariant
            i <= text@.len(),
            bare_digits(unsigned_text(text@)) == bare_digits(
                text@.subrange(i as int, text@.len() as int),
            ),
        decreases text@.len() - i,
    {
        proof {
            let rest = text@.subrange(i as int, text@.len() as int);
            assert(rest.subrange(1, rest.len() as int) =~= text@.subrange(
                i + 1,
                text@.len() as int,
            ));
        }
        i += 1;
    }
    let digits = copy_range(text, i, text.len());
    parse_decimal(digits.as_slice())
}

/// The transfer that an object of strings holds: its fields `sender`, `receiver`
/// and `amount`, where the addresses are plain text and the amount is a number.
/// Other fields are passed over.
pub open spec fn transfer_of_fields(fields: Seq<FieldSpec>) -> Option<(Seq<u8>, Seq<u8>, u128)> {
    match (
        text_of(fields, "sender".spec_bytes()),
        text_of(fields, "receiver".spec_bytes()),
        text_of(fields, "amount".spec_bytes()),
    ) {
        (Some(sender), Some(receiver), Some(amount)) => if is_plain_text(sender) && is_plain_text(
            receiver,
        ) {
            match number_spec(amount) {
                Some(n) => Some((sender, receiver, n)),
                None => None,
            }
        } else {
            None
        },
        _ => None,
    }
}

/// The accounts that the rows of an object of strings are: each name a plain
/// address and each text an amount.
pub open spec fn rows_spec(rows: Seq<RowSpec>) -> Option<Seq<EntrySpec>>
    decreases rows.len(),
{
    if rows.len() == 0 {
        Some(Seq::<EntrySpec>::empty())
    } else {
        match (rows_spec(rows.drop_last()), number_spec(rows.last().1)) {
            (Some(entries), Some(amount)) => if is_plain_text(rows.last().0) {
                Some(entries.push((rows.last().0, amount)))
            } else {
                None
            },
            _ => None,
        }
    }
}

/// The state that an object of objects holds: the accounts under its field
/// `state`, in ascending order of address.
pub open spec fn state_of_tables(tables: Seq<TableSpec>) -> Option<Seq<EntrySpec>> {
    match last_named(names_of(tables), "state".spec_bytes()) {
        None => None,
        Some(p) => match tables[p].1 {
            None => None,
            Some(rows) => match rows_spec(rows) {
                Some(entries) => if ascending(entries) {
                    Some(entries)
                } else {
                    None
                },
                None => None,
            },
        },
    }
}

/// The transfer that is read from `bytes` as an object of strings.
pub open spec fn json_transfer_spec(bytes: Seq<u8>) -> Option<(Seq<u8>, Seq<u8>, u128)> {
    match json_strings_spec(bytes) {
        Some(fields) => transfer_of_fields(fields),
        None => None,
    }
}

/// The state that is read from `bytes` as an object of objects of strings.
pub open spec fn json_state_spec(bytes: Seq<u8>) -> Option<Seq<EntrySpec>> {
    match json_tables_spec(bytes) {
        Some(tables) => state_of_tables(tables),
        None => None,
    }
}

/// The accounts that rows are have plain addresses.
pub proof fn lemma_rows_are_plain(rows: Seq<RowSpec>)
    requires
        rows_spec(rows) is Some,
    ensures
        rows_spec(rows).unwrap().len() == rows.len(),
        forall|i: int|
            0 <= i < rows.len() ==> is_plain_text((#[trigger] rows_spec(rows).unwrap()[i]).0),
    decreases rows.len(),
{
    if rows.len() > 0 {
        lemma_rows_are_plain(rows.drop_last());
    }
}

/// Once some of the first rows are no accounts, the rows are none.
proof fn lemma_rows_failure_stays(rows: Seq<RowSpec>, k: int)
    requires
        0 <= k <= rows.len(),
        rows_spec(rows.subrange(0, k)) is None,
    ensures
        rows_spec(rows) is None,
    decreases rows.len() - k,
{
    if k == rows.len() {
        assert(rows.subrange(0, k) =~= rows);
    } else {
        assert(rows.subrange(0, k + 1).drop_last() =~= rows.subrange(0, k));
        lemma_rows_failure_stays(rows, k + 1);
    }
}

/// The last place at which a field named `name` stands.
fn find_named<V>(fields: &Vec<(Vec<u8>, V)>, name: &[u8], Ghost(names): Ghost<Seq<Seq<u8>>>) -> (r: Option<
    usize,
>)
    requires
        names.len() == fields@.len(),
        forall|i: int| 0 <= i < names.len() ==> #[trigger] names[i] == fields@[i].0@,
    ensures
        match r {
            Some(p) => p < fields@.len() && last_named(names, name@) == Some(p as int),
            None => last_named(names, name@) is None,
        },
{
    let mut i: usize = fields.len();
    proof {
        assert(names.subrange(0, i as int) =~= names);
    }
    while i > 0
        invariant
            i <= fields@.len(),
            names.len() == fields@.len(),
            forall|j: int| 0 <= j < names.len() ==> #[trigger] names[j] == fields@[j].0@,
            last_named(names, name@) == last_named(names.subrange(0, i as int), name@),
        decreases i,
    {
        proof {
            assert(names.subrange(0, i as int).drop_last() =~= names.subrange(0, i - 1));
            assert(names.subrange(0, i as int).last() == names[i - 1]);
        }
        if bytes_eq(fields[i - 1].0.as_slice(), name) {
            return Some(i - 1);
        }
        i -= 1;
    }
    None
}

/// The transfer that an object of strings holds.
pub fn transfer_of(fields: &Vec<(Vec<u8>, Option<Vec<u8>>)>) -> (r: Option<
    ClearTextTransferRequestMsg,
>)
    ensures
        match r {
            Some(t) => transfer_of_fields(field_views(fields@)) == Some(
                (t.sender@, t.receiver@, t.amount),
            ),
            None => transfer_of_fields(field_views(fields@)) is None,
        },
{
    let ghost names = names_of(field_views(fields@));
    proof {
        reveal_strlit("sender");
        reveal_strlit("receiver");
        reveal_strlit("amount");
    }
    let s = match find_named(fields, "sender".as_bytes(), Ghost(names)) {
        Some(p) => p,
        None => {
            return None;
        },
    };
    let r = match find_named(fields, "receiver".as_bytes(), Ghost(names)) {
        Some(p) => p,
        None => {
            return None;
        },
    };
    let a = match find_named(fields, "amount".as_bytes(), Ghost(names)) {
        Some(p) => p,
        None => {
            return None;
        },
    };
    proof {
        assert(field_views(fields@)[s as int] == field_view(fields@[s as int]));
        assert(field_views(fields@)[r as int] == field_view(fields@[r as int]));
        assert(field_views(fields@)[a as int] == field_view(fields@[a as int]));
    }
    match (&fields[s].1, &fields[r].1, &fields[a].1) {
        (Some(sender), Some(receiver), Some(amount)) => {
            if !check_plain_text(sender.as_slice()) || !check_plain_text(receiver.as_slice()) {
                return None;
            }
            match read_number(amount.as_slice()) {
                Some(amount) => Some(
                    ClearTextTransferRequestMsg {
                        sender: copy_bytes(sender.as_slice()),
                        receiver: copy_bytes(receiver.as_slice()),
                        amount,
                    },
                ),
                None => None,
            }
        },
        _ => None,
    }
}

/// The state that an object of objects of strings holds.
pub fn state_of(tables: &Vec<(Vec<u8>, Option<Vec<(Vec<u8>, Vec<u8>)>>)>) -> (r: Option<
    Balances,
>)
    ensures
        match r {
            Some(b) => b.wf() && state_of_tables(table_views(tables@)) == Some(b.entries()),
            None => state_of_tables(table_views(tables@)) is None,
        },
{
    let ghost names = names_of(table_views(tables@));
    proof {
        reveal_strlit("state");
    }
    let p = match find_named(tables, "state".as_bytes(), Ghost(names)) {
        Some(p) => p,
        None => {
            return None;
        },
    };
    proof {
        assert(table_views(tables@)[p as int] == table_view(tables@[p as int]));
    }
    let rows = match &tables[p].1 {
        Some(rows) => rows,
        None => {
            return None;
        },
    };
    let ghost views = row_views(rows@);
    let mut out: Vec<(Vec<u8>, u128)> = Vec::new();
    let mut i: usize = 0;
    proof {
        assert(views.subrange(0, 0) =~= Seq::<RowSpec>::empty());
        assert(entry_views(out@) =~= Seq::<EntrySpec>::empty());
        assert(table_views(tables@)[p as int].1 == Some(views));
    }
    while i < rows.len()
        invariant
            i <= rows@.len(),
            views == row_views(rows@),
            rows_spec(views) is None ==> state_of_tables(table_views(tables@)) is None,
            rows_spec(views.subrange(0, i as int)) == Some(entry_views(out@)),
        decreases rows.len() - i,
    {
        proof {
            assert(views.subrange(0, i + 1).drop_last() =~= views.subrange(0, i as int));
            assert(views.subrange(0, i + 1).last() == views[i as int]);
        }
        let amount = match read_number(rows[i].1.as_slice()) {
            Some(n) => n,
            None => {
                proof {
                    lemma_rows_failure_stays(views, i + 1);
                }
                return None;
            },
        };
        if !check_plain_text(rows[i].0.as_slice()) {
            proof {
                lemma_rows_failure_stays(views, i + 1);
            }
            return None;
        }
        let ghost before = entry_views(out@);
        out.push((copy_bytes(rows[i].0.as_slice()), amount));
        proof {
            assert(entry_views(out@) =~= before.push((views[i as int].0, amount)));
        }
        i += 1;
    }
    proof {
        assert(views.subrange(0, i as int) =~= views);
    }
    Balances::from_entries(out)
}

/// Reads a transfer from JSON text in any shape: an object with the strings
/// `sender`, `receiver` and `amount`, whatever other fields it has.
pub fn read_json_transfer(bytes: &[u8]) -> (r: Option<ClearTextTransferRequestMsg>)
    ensures
        match r {
            Some(t) => json_transfer_spec(bytes@) == Some((t.sender@, t.receiver@, t.amount)),
            None => json_transfer_spec(bytes@) is None,
        },
{
    match json_strings(bytes) {
        Some(fields) => transfer_of(&fields),
        None => None,
    }
}

/// Reads a state from JSON text in any shape: an object whose field `state` is an
/// object of amounts by address.
pub fn read_json_state(bytes: &[u8]) -> (r: Option<Balances>)
    ensures
        match r {
            Some(b) => b.wf() && json_state_spec(bytes@) == Some(b.entries()),
            None => json_state_spec(bytes@) is None,
        },
{
    match json_tables(bytes) {
        Some(tables) => state_of(&tables),
        None => None,
    }
}

} // verus!
