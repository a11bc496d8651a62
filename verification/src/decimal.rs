//! Decimal text for amounts and counters.

use vstd::prelude::*;

verus! {

/// The decimal digits of a number, most significant first, as ASCII.
pub open spec fn decimal_spec(n: nat) -> Seq<u8>
    decreases n,
{
    if n < 10 {
        seq![(48 + n) as u8]
    } else {
        decimal_spec(n / 10).push((48 + n % 10) as u8)
    }
}

/// Whether a byte is an ASCII digit.
pub open spec fn is_digit(c: u8) -> bool {
    48 <= c <= 57
}

/// The number that a string of digits stands for.
pub open spec fn digits_value(s: Seq<u8>) -> nat
    decreases s.len(),
{
    if s.len() == 0 {
        0
    } else {
        (10 * digits_value(s.drop_last()) + (s.last() - 48)) as nat
    }
}

/// Whether `s` is the decimal text of some number: digits only, at least one, and
/// no leading zero before another digit.
pub open spec fn is_decimal(s: Seq<u8>) -> bool {
    &&& s.len() > 0
    &&& forall|i: int| 0 <= i < s.len() ==> is_digit(#[trigger] s[i])
    &&& (s.len() > 1 ==> s[0] != 48)
}

/// The number that decimal text stands for, if it is decimal text of a number that
/// fits 128 bits.
pub open spec fn parse_decimal_spec(s: Seq<u8>) -> Option<u128> {
    if is_decimal(s) && digits_value(s) <= u128::MAX {
        Some(digits_value(s) as u128)
    } else {
        None
    }
}

/// Decimal text is made of digits, has no leading zero, and reads back as the
/// number it was written from.
pub proof fn lemma_decimal_round_trip(n: nat)
    ensures
        is_decimal(decimal_spec(n)),
        digits_value(decimal_spec(n)) == n,
        n > 0 ==> decimal_spec(n)[0] != 48,
    decreases n,
{
    if n < 10 {
        let s = decimal_spec(n);
        assert(s.drop_last() =~= Seq::<u8>::empty());
        assert(digits_value(s.drop_last()) == 0);
    } else {
        lemma_decimal_round_trip(n / 10);
        let p = decimal_spec(n / 10);
        let s = decimal_spec(n);
        assert(s.drop_last() =~= p);
        assert(s[0] == p[0]);
        assert(s.last() == (48 + n % 10) as u8);
    }
}

/// Writes a number as decimal text.
pub fn encode_decimal(n: u128) -> (r: Vec<u8>)
    ensures
        r@ == decimal_spec(n as nat),
{
    let mut rev: Vec<u8> = Vec::new();
    let mut rest: u128 = n;
    // `rev` holds the low digits of `n`, lowest first.
    while rest >= 10
        invariant
            decimal_spec(n as nat) == decimal_spec(rest as nat) + rev@.reverse(),
        decreases rest,
    {
        let d: u8 = (rest % 10) as u8;
        proof {
            let old_rev = rev@;
            let tail = old_rev.push((48 + d) as u8).reverse();
            assert(tail =~= seq![(48 + d) as u8] + old_rev.reverse());
            assert(decimal_spec(rest as nat) == decimal_spec((rest / 10) as nat).push(
                (48 + rest % 10) as u8,
            ));
            assert(decimal_spec(rest as nat) + old_rev.reverse() =~= decimal_spec(
                (rest / 10) as nat,
            ) + tail);
        }
        rev.push(48 + d);
        rest = rest / 10;
    }
    let mut out: Vec<u8> = Vec::new();
    out.push(48 + (rest as u8));
    let mut i: usize = rev.len();
    while i > 0
        invariant
            i <= rev.len(),
            rest < 10,
            out@ == decimal_spec(rest as nat) + rev@.reverse().subrange(0, rev.len() - i),
        decreases i,
    {
        i -= 1;
        out.push(rev[i]);
        proof {
            let r = rev@.reverse();
            let k = rev.len() - i - 1;
            assert(r[k] == rev@[i as int]);
            assert(r.subrange(0, k + 1) =~= r.subrange(0, k).push(r[k]));
        }
    }
    proof {
        assert(rev@.reverse().subrange(0, rev.len() as int) =~= rev@.reverse());
    }
    out
}

/// Reads decimal text back into a number. Text that is not the decimal text of a
/// number of at most 128 bits is refused.
pub fn parse_decimal(s: &[u8]) -> (r: Option<u128>)
    ensures
        r == parse_decimal_spec(s@),
{
    if s.len() == 0 {
        return None;
    }
    if s.len() > 1 && s[0] == 48 {
        return None;
    }
    let mut acc: u128 = 0;
    let mut i: usize = 0;
    while i < s.len()
        invariant
            i <= s.len(),
            forall|j: int| 0 <= j < i ==> is_digit(#[trigger] s@[j]),
            acc == digits_value(s@.subrange(0, i as int)),
        decreases s.len() - i,
    {
        let c: u8 = s[i];
        if c < 48 || c > 57 {
            return None;
        }
        let d: u128 = (c - 48) as u128;
        proof {
            let p = s@.subrange(0, i + 1);
            assert(p.drop_last() =~= s@.subrange(0, i as int));
            assert(p.last() == c);
            assert(digits_value(p) == 10 * acc + d);
            lemma_digits_value_monotone(s@, i + 1);
        }
        let next = match acc.checked_mul(10) {
            Some(m) => m.checked_add(d),
            None => None,
        };
        match next {
            Some(v) => {
                acc = v;
            },
            None => {
                return None;
            },
        }
        i += 1;
    }
    proof {
        assert(s@.subrange(0, i as int) =~= s@);
    }
    Some(acc)
}

/// A prefix of a digit string stands for no more than the whole string.
proof fn lemma_digits_value_monotone(s: Seq<u8>, k: int)
    requires
        0 <= k <= s.len(),
        forall|j: int| 0 <= j < k ==> is_digit(#[trigger] s[j]),
    ensures
        digits_value(s.subrange(0, k)) <= digits_value(s) || exists|j: int|
            0 <= j < s.len() && !is_digit(#[trigger] s[j]),
    decreases s.len() - k,
{
    if k == s.len() {
        assert(s.subrange(0, k) =~= s);
    } else if is_digit(s[k]) {
        let p = s.subrange(0, k + 1);
        assert(p.drop_last() =~= s.subrange(0, k));
        assert(p.last() == s[k]);
        lemma_digits_value_monotone(s, k + 1);
    }
}

/// Decimal text is the text that is written of the number it stands for: there is
/// one decimal text for each number.
pub proof fn lemma_decimal_is_canonical(s: Seq<u8>)
    requires
        is_decimal(s),
    ensures
        s == decimal_spec(digits_value(s)),
    decreases s.len(),
{
    let n = digits_value(s);
    let init = s.drop_last();
    let d = (s.last() - 48) as nat;
    assert(is_digit(s[s.len() - 1]));
    if s.len() == 1 {
        assert(init =~= Seq::<u8>::empty());
        assert(digits_value(init) == 0);
        assert(n == d);
        assert(s =~= seq![(48 + n) as u8]);
    } else {
        assert(is_decimal(init)) by {
            assert forall|i: int| 0 <= i < init.len() implies is_digit(#[trigger] init[i]) by {
                assert(init[i] == s[i]);
            }
            assert(init[0] == s[0]);
        }
        lemma_decimal_is_canonical(init);
        let m = digits_value(init);
        assert(n == 10 * m + d);
        assert(m >= 1) by {
            lemma_leading_digit(init);
        }
        assert(n >= 10);
        assert(n / 10 == m && n % 10 == d);
        assert(decimal_spec(n) == decimal_spec(m).push((48 + d) as u8));
        assert(s =~= init.push(s.last()));
    }
}

/// Digits that do not begin with a zero stand for a number that is not zero.
proof fn lemma_leading_digit(s: Seq<u8>)
    requires
        s.len() >= 1,
        forall|i: int| 0 <= i < s.len() ==> is_digit(#[trigger] s[i]),
        s[0] != 48,
    ensures
        digits_value(s) >= 1,
    decreases s.len(),
{
    assert(is_digit(s[s.len() - 1]));
    if s.len() == 1 {
        assert(s.drop_last() =~= Seq::<u8>::empty());
        assert(is_digit(s[0]));
    } else {
        let init = s.drop_last();
        assert forall|i: int| 0 <= i < init.len() implies is_digit(#[trigger] init[i]) by {
            assert(init[i] == s[i]);
        }
        assert(init[0] == s[0]);
        lemma_leading_digit(init);
    }
}

} // verus!
