//! Account identifiers of the ledger: Bech32 text with a lower-case prefix.

use core::str::FromStr;
use vstd::prelude::*;
use crate::bytes::{bytes_eq, copy_bytes};
use crate::wire::{check_plain_text, is_plain_text};

verus! {

/// The canonical text and the address bytes of the account id that `text` parses
/// to, or `None` where it is no account id.
pub uninterp spec fn account_spec(text: Seq<u8>) -> Option<(Seq<u8>, Seq<u8>)>;

/// Calls `cosmrs::AccountId::from_str` and returns the text of the id it gives and
/// the bytes that `to_bytes` gives of it. Trusted: the outcome depends on `text`
/// alone. The text is handed over as a string; for the plain ASCII that
/// `requires` asks for, that changes no byte.
#[verifier::external_body]
fn parse_account_text(text: &[u8]) -> (r: Option<(Vec<u8>, Vec<u8>)>)
    requires
        is_plain_text(text@),
    ensures
        r.is_some() == account_spec(text@).is_some(),
        r matches Some(p) ==> (p.0@, p.1@) == account_spec(text@).unwrap(),
{
    let id = cosmrs::AccountId::from_str(&String::from_utf8_lossy(text)).ok()?;
    Some((id.as_ref().as_bytes().to_vec(), id.to_bytes()))
}

/// The canonical text of the account id that `text` parses to.
pub open spec fn account_id_spec(text: Seq<u8>) -> Option<Seq<u8>> {
    match account_spec(text) {
        Some(p) => Some(p.0),
        None => None,
    }
}

/// The address bytes that the text of an account id encodes.
pub open spec fn account_bytes_spec(text: Seq<u8>) -> Option<Seq<u8>> {
    match account_spec(text) {
        Some(p) => Some(p.1),
        None => None,
    }
}

/// Whether `text` is the canonical text of an account id: plain text that parses
/// to itself.
pub open spec fn is_canonical_account(text: Seq<u8>) -> bool {
    is_plain_text(text) && account_id_spec(text) == Some(text)
}

/// What parsing `text` as an account id gives: the canonical text of the id, where
/// `text` is plain, parses, and its canonical text is plain and parses to itself.
pub open spec fn parse_account_spec(text: Seq<u8>) -> Option<Seq<u8>> {
    if is_plain_text(text) && account_id_spec(text).is_some() && is_canonical_account(
        account_id_spec(text).unwrap(),
    ) {
        account_id_spec(text)
    } else {
        None
    }
}

/// An account of the ledger, such as a contract's address.
pub struct AccountId {
    text: Vec<u8>,
    bytes: Vec<u8>,
}

impl AccountId {
    /// The canonical text of the id.
    pub closed spec fn view(&self) -> Seq<u8> {
        self.text@
    }

    #[verifier::type_invariant]
    closed spec fn inv(&self) -> bool {
        is_canonical_account(self.text@) && account_bytes_spec(self.text@) == Some(self.bytes@)
    }

    /// Parses an account id. The id that comes back holds the canonical text.
    pub fn parse(text: &[u8]) -> (r: Option<AccountId>)
        ensures
            r.is_some() == parse_account_spec(text@).is_some(),
            r matches Some(id) ==> id@ == parse_account_spec(text@).unwrap(),
    {
        if !check_plain_text(text) {
            return None;
        }
        let canonical = match parse_account_text(text) {
            Some(p) => p.0,
            None => {
                return None;
            },
        };
        if !check_plain_text(canonical.as_slice()) {
            return None;
        }
        match parse_account_text(canonical.as_slice()) {
            Some(again) => {
                if bytes_eq(again.0.as_slice(), canonical.as_slice()) {
                    Some(AccountId { text: canonical, bytes: again.1 })
                } else {
                    None
                }
            },
            None => None,
        }
    }

    /// The text of the id, which is canonical.
    pub fn as_bytes(&self) -> (r: &[u8])
        ensures
            r@ == self@,
            is_canonical_account(self@),
    {
        proof {
            use_type_invariant(self);
        }
        self.text.as_slice()
    }

    /// The address bytes that the id encodes.
    pub fn to_bytes(&self) -> (r: Vec<u8>)
        ensures
            account_bytes_spec(self@) == Some(r@),
    {
        proof {
            use_type_invariant(self);
        }
        copy_bytes(self.bytes.as_slice())
    }

    /// Whether two ids are the same account.
    pub fn same(&self, other: &AccountId) -> (r: bool)
        ensures
            r == (self@ == other@),
    {
        bytes_eq(self.text.as_slice(), other.text.as_slice())
    }
}

impl Clone for AccountId {
    fn clone(&self) -> (r: AccountId)
        ensures
            r@ == self@,
    {
        proof {
            use_type_invariant(self);
        }
        AccountId {
            text: copy_bytes(self.text.as_slice()),
            bytes: copy_bytes(self.bytes.as_slice()),
        }
    }
}

} // verus!
