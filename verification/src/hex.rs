//! Lower-case hexadecimal text, as the ledger's messages carry binary fields.

use vstd::prelude::*;

verus! {

/// The lower-case hex digit of a value below sixteen.
pub open spec fn hex_digit(v: int) -> u8 {
    if v < 10 {
        (48 + v) as u8
    } else {
        (87 + v) as u8
    }
}

/// The value of a hex digit, upper or lower case.
pub open spec fn hex_value(c: u8) -> Option<int> {
    if 48 <= c <= 57 {
        Some(c - 48)
    } else if 97 <= c <= 102 {
        Some(c - 87)
    } else if 65 <= c <= 70 {
        Some(c - 55)
    } else {
        None
    }
}

/// The hex text of a byte string: two lower-case digits per byte, high half first.
pub open spec fn encode_hex_spec(data: Seq<u8>) -> Seq<u8> {
    Seq::new(
        2 * data.len(),
        |i: int|
            if i % 2 == 0 {
                hex_digit(data[i / 2] as int / 16)
            } else {
                hex_digit(data[i / 2] as int % 16)
            },
    )
}

/// Whether `text` is hex text: an even number of hex digits.
pub open spec fn is_hex(text: Seq<u8>) -> bool {
    &&& text.len() % 2 == 0
    &&& forall|i: int| 0 <= i < text.len() ==> hex_value(#[trigger] text[i]).is_some()
}

/// The byte string that hex text stands for, if it is hex text.
pub open spec fn decode_hex_spec(text: Seq<u8>) -> Option<Seq<u8>> {
    if is_hex(text) {
        Some(
            Seq::new(
                text.len() / 2,
                |i: int|
                    (16 * hex_value(text[2 * i]).unwrap() + hex_value(text[2 * i + 1]).unwrap()) as u8,
            ),
        )
    } else {
        None
    }
}

pub(crate) fn digit_of(v: u8) -> (r: u8)
    requires
        v < 16,
    ensures
        r == hex_digit(v as int),
{
    if v < 10 {
        48 + v
    } else {
        87 + v
    }
}

fn value_of(c: u8) -> (r: Option<u8>)
    ensures
        r.is_some() == hex_value(c).is_some(),
        r matches Some(v) ==> v == hex_value(c).unwrap() && v < 16,
{
    if 48 <= c && c <= 57 {
        Some(c - 48)
    } else if 97 <= c && c <= 102 {
        Some(c - 87)
    } else if 65 <= c && c <= 70 {
        Some(c - 55)
    } else {
        None
    }
}

/// Writes a byte string as lower-case hex text.
pub fn encode_hex(data: &[u8]) -> (r: Vec<u8>)
    ensures
        r@ == encode_hex_spec(data@),
{
    let mut out: Vec<u8> = Vec::new();
    let mut i: usize = 0;
    while i < data.len()
        invariant
            i <= data.len(),
            out@.len() == 2 * i,
            forall|j: int| 0 <= j < out@.len() ==> out@[j] == encode_hex_spec(data@)[j],
        decreases data.len() - i,
    {
        let b: u8 = data[i];
        out.push(digit_of(b / 16));
        out.push(digit_of(b % 16));
        i += 1;
    }
    proof {
        assert(out@ =~= encode_hex_spec(data@));
    }
    out
}

/// Reads hex text, in either case, back into bytes. Text of odd length or with
/// another character is refused.
pub fn decode_hex(text: &[u8]) -> (r: Option<Vec<u8>>)
    ensures
        r.is_some() == decode_hex_spec(text@).is_some(),
        r matches Some(v) ==> v@ == decode_hex_spec(text@).unwrap(),
{
    if text.len() % 2 != 0 {
        return None;
    }
    let n: usize = text.len() / 2;
    let mut out: Vec<u8> = Vec::new();
    let mut i: usize = 0;
    while i < n
        invariant
            i <= n,
            text.len() == 2 * n,
            out@.len() == i,
            forall|j: int| 0 <= j < 2 * i ==> hex_value(#[trigger] text@[j]).is_some(),
            forall|j: int|
                0 <= j < i ==> out@[j] == (16 * hex_value(text@[2 * j]).unwrap() + hex_value(
                    text@[2 * j + 1],
                ).unwrap()) as u8,
        decreases n - i,
    {
        let hi = value_of(text[2 * i]);
        let lo = value_of(text[2 * i + 1]);
        match (hi, lo) {
            (Some(h), Some(l)) => {
                out.push(16 * h + l);
            },
            _ => {
                proof {
                    assert(hex_value(text@[2 * i as int]).is_none() || hex_value(
                        text@[2 * i + 1],
                    ).is_none());
                }
                return None;
            },
        }
        i += 1;
    }
    proof {
        assert(is_hex(text@));
        assert(out@ =~= decode_hex_spec(text@).unwrap());
    }
    Some(out)
}

/// Hex text that was written from bytes reads back as those bytes.
pub proof fn lemma_hex_round_trip(data: Seq<u8>)
    ensures
        decode_hex_spec(encode_hex_spec(data)) == Some(data),
{
    let text = encode_hex_spec(data);
    assert forall|i: int| 0 <= i < text.len() implies hex_value(#[trigger] text[i]).is_some() by {
        let b = data[i / 2] as int;
        assert(0 <= b / 16 < 16 && 0 <= b % 16 < 16);
    }
    assert(is_hex(text));
    let back = decode_hex_spec(text).unwrap();
    assert forall|i: int| 0 <= i < data.len() implies back[i] == data[i] by {
        let b = data[i] as int;
        assert((2 * i) / 2 == i && (2 * i) % 2 == 0);
        assert((2 * i + 1) / 2 == i && (2 * i + 1) % 2 == 1);
        assert(text[2 * i] == hex_digit(b / 16));
        assert(text[2 * i + 1] == hex_digit(b % 16));
        assert(0 <= b / 16 < 16 && 0 <= b % 16 < 16);
        assert(hex_value(hex_digit(b / 16)) == Some(b / 16));
        assert(hex_value(hex_digit(b % 16)) == Some(b % 16));
        assert(16 * (b / 16) + b % 16 == b);
    }
    assert(back =~= data);
}

/// Hex text is made of digits and the letters a to f.
pub proof fn lemma_hex_digits(data: Seq<u8>)
    ensures
        forall|i: int|
            0 <= i < encode_hex_spec(data).len() ==> {
                let c = #[trigger] encode_hex_spec(data)[i];
                48 <= c <= 57 || 97 <= c <= 102
            },
{
    let text = encode_hex_spec(data);
    assert forall|i: int| 0 <= i < text.len() implies {
        let c = #[trigger] text[i];
        48 <= c <= 57 || 97 <= c <= 102
    } by {
        let b = data[i / 2] as int;
        assert(0 <= b / 16 < 16 && 0 <= b % 16 < 16);
    }
}

} // verus!
