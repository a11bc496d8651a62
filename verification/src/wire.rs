//! Building blocks of the JSON text that messages take on the wire.

use vstd::prelude::*;
use vstd::string::*;
use crate::bytes::{append_bytes, lemma_cancel_head};
use crate::decimal::{decimal_spec, encode_decimal};
use crate::hex::{encode_hex, encode_hex_spec};

verus! {

/// The double quote.
pub const QUOTE: u8 = 34;

/// The backslash.
pub const BACKSLASH: u8 = 92;

/// Whether a byte can stand in a JSON string as it is: printable ASCII other than
/// the quote and the backslash.
pub open spec fn is_plain_byte(c: u8) -> bool {
    32 <= c <= 126 && c != QUOTE && c != BACKSLASH
}

/// Whether every byte of `s` can stand in a JSON string as it is.
pub open spec fn is_plain_text(s: Seq<u8>) -> bool {
    forall|i: int| 0 <= i < s.len() ==> is_plain_byte(#[trigger] s[i])
}

/// `s` between double quotes.
pub open spec fn quoted(s: Seq<u8>) -> Seq<u8> {
    seq![QUOTE] + s + seq![QUOTE]
}

/// Whether every byte of `s` can stand in a JSON string as it is.
pub fn check_plain_text(s: &[u8]) -> (r: bool)
    ensures
        r == is_plain_text(s@),
{
    let mut i: usize = 0;
    while i < s.len()
        invariant
            i <= s.len(),
            forall|j: int| 0 <= j < i ==> is_plain_byte(#[trigger] s@[j]),
        decreases s.len() - i,
    {
        let c: u8 = s[i];
        if c < 32 || c > 126 || c == QUOTE || c == BACKSLASH {
            return false;
        }
        i += 1;
    }
    true
}

/// Appends the bytes of a string literal.
pub fn push_text(out: &mut Vec<u8>, text: &str)
    ensures
        final(out)@ == old(out)@ + text.spec_bytes(),
{
    append_bytes(out, text.as_bytes());
}

/// Appends `s` between double quotes.
pub fn push_quoted(out: &mut Vec<u8>, s: &[u8])
    ensures
        final(out)@ == old(out)@ + quoted(s@),
{
    let ghost before = out@;
    out.push(QUOTE);
    append_bytes(out, s);
    out.push(QUOTE);
    proof {
        assert(out@ =~= before + quoted(s@));
    }
}

/// What stands in a JSON string for one byte: the quote and the backslash behind
/// a backslash, a control byte by its short name or its number, and every other
/// byte as it is.
pub open spec fn escape_byte(c: u8) -> Seq<u8> {
    if c == QUOTE {
        seq![BACKSLASH, QUOTE]
    } else if c == BACKSLASH {
        seq![BACKSLASH, BACKSLASH]
    } else if c == 8 {
        seq![BACKSLASH, 98u8]
    } else if c == 9 {
        seq![BACKSLASH, 116u8]
    } else if c == 10 {
        seq![BACKSLASH, 110u8]
    } else if c == 12 {
        seq![BACKSLASH, 102u8]
    } else if c == 13 {
        seq![BACKSLASH, 114u8]
    } else if c < 32 {
        seq![BACKSLASH, 117u8, 48u8, 48u8, crate::hex::hex_digit(c as int / 16), crate::hex::hex_digit(c as int % 16)]
    } else {
        seq![c]
    }
}

/// What stands in a JSON string for the bytes of `s`.
pub open spec fn escaped(s: Seq<u8>) -> Seq<u8>
    decreases s.len(),
{
    if s.len() == 0 {
        Seq::<u8>::empty()
    } else {
        escaped(s.drop_last()) + escape_byte(s.last())
    }
}

/// The JSON string that holds `s`.
pub open spec fn json_string(s: Seq<u8>) -> Seq<u8> {
    seq![QUOTE] + escaped(s) + seq![QUOTE]
}

/// Plain text stands in a JSON string as it is.
pub proof fn lemma_plain_is_unescaped(s: Seq<u8>)
    requires
        is_plain_text(s),
    ensures
        escaped(s) == s,
        json_string(s) == quoted(s),
    decreases s.len(),
{
    if s.len() > 0 {
        lemma_plain_is_unescaped(s.drop_last());
        assert(is_plain_byte(s[s.len() - 1]));
        assert(escaped(s) =~= s);
    } else {
        assert(escaped(s) =~= s);
    }
}

/// What stands for a string begins with what stands for its first byte.
pub proof fn lemma_escaped_front(s: Seq<u8>)
    requires
        s.len() > 0,
    ensures
        escaped(s) == escape_byte(s[0]) + escaped(s.subrange(1, s.len() as int)),
    decreases s.len(),
{
    let tail = s.subrange(1, s.len() as int);
    if s.len() == 1 {
        assert(escaped(s.drop_last()) =~= Seq::<u8>::empty());
        assert(escaped(tail) =~= Seq::<u8>::empty());
        assert(escaped(s) =~= escape_byte(s[0]) + escaped(tail));
    } else {
        let init = s.drop_last();
        lemma_escaped_front(init);
        assert(tail.drop_last() =~= init.subrange(1, init.len() as int));
        assert(tail.last() == s.last());
        assert(escaped(s) =~= escape_byte(s[0]) + escaped(tail));
    }
}

/// What stands for a byte tells which byte it is, whatever follows.
pub proof fn lemma_escape_byte_decides(c: u8, d: u8, x: Seq<u8>, y: Seq<u8>)
    requires
        escape_byte(c) + x == escape_byte(d) + y,
    ensures
        c == d,
        x == y,
{
    let l = escape_byte(c) + x;
    let r = escape_byte(d) + y;
    let ec = escape_byte(c);
    let ed = escape_byte(d);
    assert(l[0] == ec[0] && r[0] == ed[0]);
    assert(ec.len() >= 2 ==> l[1] == ec[1]);
    assert(ed.len() >= 2 ==> r[1] == ed[1]);
    assert(ec.len() == 6 ==> l[4] == ec[4] && l[5] == ec[5]);
    assert(ed.len() == 6 ==> r[4] == ed[4] && r[5] == ed[5]);
    assert(c == d);
    lemma_cancel_head(ec, x, y);
}

/// What stands for a string, closed by a quote, tells which string it is,
/// whatever follows.
pub proof fn lemma_escaped_decides(a: Seq<u8>, b: Seq<u8>, x: Seq<u8>, y: Seq<u8>)
    requires
        escaped(a) + seq![QUOTE] + x == escaped(b) + seq![QUOTE] + y,
    ensures
        a == b,
        x == y,
    decreases a.len(),
{
    let l = escaped(a) + seq![QUOTE] + x;
    let r = escaped(b) + seq![QUOTE] + y;
    if a.len() == 0 && b.len() == 0 {
        assert(escaped(a) =~= Seq::<u8>::empty());
        assert(escaped(b) =~= Seq::<u8>::empty());
        assert(l =~= seq![QUOTE] + x);
        assert(r =~= seq![QUOTE] + y);
        lemma_cancel_head(seq![QUOTE], x, y);
        assert(a =~= b);
    } else if a.len() == 0 {
        lemma_escaped_front(b);
        assert(escaped(a) =~= Seq::<u8>::empty());
        assert(l[0] == QUOTE);
        assert(r[0] == escape_byte(b[0])[0]);
        assert(false);
    } else if b.len() == 0 {
        lemma_escaped_front(a);
        assert(escaped(b) =~= Seq::<u8>::empty());
        assert(r[0] == QUOTE);
        assert(l[0] == escape_byte(a[0])[0]);
        assert(false);
    } else {
        lemma_escaped_front(a);
        lemma_escaped_front(b);
        let ta = a.subrange(1, a.len() as int);
        let tb = b.subrange(1, b.len() as int);
        let ra = escaped(ta) + seq![QUOTE] + x;
        let rb = escaped(tb) + seq![QUOTE] + y;
        assert(l =~= escape_byte(a[0]) + ra);
        assert(r =~= escape_byte(b[0]) + rb);
        lemma_escape_byte_decides(a[0], b[0], ra, rb);
        lemma_escaped_decides(ta, tb, x, y);
        assert(a =~= seq![a[0]] + ta);
        assert(b =~= seq![b[0]] + tb);
    }
}

/// Two JSON strings at the same place of the same bytes hold the same text.
pub proof fn lemma_same_string(
    head: Seq<u8>,
    a: Seq<u8>,
    rest_a: Seq<u8>,
    b: Seq<u8>,
    rest_b: Seq<u8>,
)
    requires
        head + json_string(a) + rest_a == head + json_string(b) + rest_b,
    ensures
        a == b,
        rest_a == rest_b,
{
    let la = escaped(a) + seq![QUOTE] + rest_a;
    let lb = escaped(b) + seq![QUOTE] + rest_b;
    assert(head + json_string(a) + rest_a =~= (head + seq![QUOTE]) + la);
    assert(head + json_string(b) + rest_b =~= (head + seq![QUOTE]) + lb);
    lemma_cancel_head(head + seq![QUOTE], la, lb);
    lemma_escaped_decides(a, b, rest_a, rest_b);
}

/// Appends the JSON string that holds `s`.
pub fn push_json_string(out: &mut Vec<u8>, s: &[u8])
    ensures
        final(out)@ == old(out)@ + json_string(s@),
{
    let ghost before = out@;
    out.push(QUOTE);
    let mut i: usize = 0;
    proof {
        assert(s@.subrange(0, 0) =~= Seq::<u8>::empty());
        assert(out@ =~= before + seq![QUOTE] + escaped(s@.subrange(0, 0)));
    }
    while i < s.len()
        invariant
            i <= s.len(),
            out@ == before + seq![QUOTE] + escaped(s@.subrange(0, i as int)),
        decreases s.len() - i,
    {
        let ghost mid = out@;
        let c: u8 = s[i];
        proof {
            assert(s@.subrange(0, i + 1).drop_last() =~= s@.subrange(0, i as int));
            assert(s@.subrange(0, i + 1).last() == c);
        }
        if c == QUOTE || c == BACKSLASH {
            out.push(BACKSLASH);
            out.push(c);
        } else if c == 8 {
            out.push(BACKSLASH);
            out.push(98u8);
        } else if c == 9 {
            out.push(BACKSLASH);
            out.push(116u8);
        } else if c == 10 {
            out.push(BACKSLASH);
            out.push(110u8);
        } else if c == 12 {
            out.push(BACKSLASH);
            out.push(102u8);
        } else if c == 13 {
            out.push(BACKSLASH);
            out.push(114u8);
        } else if c < 32 {
            out.push(BACKSLASH);
            out.push(117u8);
            out.push(48u8);
            out.push(48u8);
            out.push(crate::hex::digit_of(c / 16));
            out.push(crate::hex::digit_of(c % 16));
        } else {
            out.push(c);
        }
        proof {
            assert(out@ =~= mid + escape_byte(c));
            assert(out@ =~= before + seq![QUOTE] + escaped(s@.subrange(0, i + 1)));
        }
        i += 1;
    }
    proof {
        assert(s@.subrange(0, i as int) =~= s@);
    }
    out.push(QUOTE);
    proof {
        assert(out@ =~= before + json_string(s@));
    }
}

/// Appends the hex text of `data` between double quotes.
pub fn push_hex(out: &mut Vec<u8>, data: &[u8])
    ensures
        final(out)@ == old(out)@ + quoted(encode_hex_spec(data@)),
{
    let text = encode_hex(data);
    push_quoted(out, text.as_slice());
}

/// Appends the decimal text of `n`.
pub fn push_decimal(out: &mut Vec<u8>, n: u128)
    ensures
        final(out)@ == old(out)@ + decimal_spec(n as nat),
{
    let text = encode_decimal(n);
    append_bytes(out, text.as_slice());
}

/// The comma.
pub const COMMA: u8 = 44;

/// The texts of a list, with a comma between each two.
pub open spec fn joined(items: Seq<Seq<u8>>) -> Seq<u8>
    decreases items.len(),
{
    if items.len() == 0 {
        Seq::<u8>::empty()
    } else if items.len() == 1 {
        items[0]
    } else {
        joined(items.drop_last()) + seq![COMMA] + items.last()
    }
}

/// The texts of a list of byte strings.
pub open spec fn texts(items: Seq<Vec<u8>>) -> Seq<Seq<u8>> {
    Seq::new(items.len(), |i: int| items[i]@)
}

/// Writes the texts of a list with a comma between each two.
pub fn join_texts(items: &Vec<Vec<u8>>) -> (r: Vec<u8>)
    ensures
        r@ == joined(texts(items@)),
{
    let ghost all = texts(items@);
    let mut out: Vec<u8> = Vec::new();
    let mut i: usize = 0;
    proof {
        assert(all.subrange(0, 0) =~= Seq::<Seq<u8>>::empty());
    }
    while i < items.len()
        invariant
            i <= items.len(),
            all == texts(items@),
            out@ == joined(all.subrange(0, i as int)),
        decreases items.len() - i,
    {
        proof {
            let next = all.subrange(0, i + 1);
            assert(next.drop_last() =~= all.subrange(0, i as int));
            assert(next.last() == items@[i as int]@);
            if i == 0 {
                assert(next[0] == items@[0]@);
            }
        }
        let ghost before = out@;
        if i > 0 {
            out.push(COMMA);
        }
        append_bytes(&mut out, items[i].as_slice());
        proof {
            if i > 0 {
                assert(out@ =~= before + seq![COMMA] + items@[i as int]@);
            } else {
                assert(out@ =~= items@[0]@);
            }
        }
        i += 1;
    }
    proof {
        assert(all.subrange(0, i as int) =~= all);
    }
    out
}

/// The 64 bytes that an attestation carries for a digest: the digest, then 32 zero
/// bytes.
pub open spec fn pad_digest(digest: Seq<u8>) -> Seq<u8> {
    digest + Seq::new(32, |i: int| 0u8)
}

/// Pads a digest to the 64 bytes that an attestation carries.
pub fn user_data_of_digest(digest: &[u8; 32]) -> (r: [u8; 64])
    ensures
        r@ == pad_digest(digest@),
{
    let mut out = crate::state::zeros_64();
    let mut i: usize = 0;
    while i < 32
        invariant
            i <= 32,
            forall|j: int| 0 <= j < i ==> out@[j] == digest@[j],
            forall|j: int| i <= j < 64 ==> out@[j] == 0,
        decreases 32 - i,
    {
        out[i] = digest[i];
        i += 1;
    }
    proof {
        assert(out@ =~= pad_digest(digest@));
    }
    out
}

} // verus!
