//! The fixed-size values that cross the boundary between enclave and ledger, and
//! the errors of converting between wire and domain forms.

use vstd::prelude::*;
use crate::bytes::copy_bytes;

verus! {

/// A SHA-256 digest.
pub type Hash = [u8; 32];

/// The report data of an attestation: a digest of the attested message, then zeros.
pub type UserData = [u8; 64];

/// The measurement of the enclave's code.
pub type MrEnclave = [u8; 32];

/// The random value of a session.
pub type Nonce = [u8; 32];

/// The height of a block.
pub type Height = u64;

/// Why a wire value has no domain value.
#[derive(Clone, Copy, Debug, PartialEq, Eq, Structural)]
pub enum StdError {
    /// A binary field is no hex text.
    InvalidHex,
    /// A binary field has another length than its type.
    InvalidDataSize { expected: u64, actual: u64 },
    /// A contract address is no account id.
    ParseAccountId,
    /// A quote is not laid out as a version 3 quote.
    ParseQuote,
    /// A collateral is no CBOR.
    ParseCollateral,
    /// A public key is no point of the curve.
    InvalidPubKey,
}

/// Reads a byte string of exactly 32 bytes into an array.
pub fn to_array_32(data: &[u8]) -> (r: Result<[u8; 32], StdError>)
    ensures
        data@.len() == 32 ==> (r matches Ok(a) && a@ == data@),
        data@.len() != 32 ==> r == Err::<[u8; 32], StdError>(
            StdError::InvalidDataSize { expected: 32, actual: data@.len() as u64 },
        ),
{
    if data.len() != 32 {
        return Err(StdError::InvalidDataSize { expected: 32, actual: data.len() as u64 });
    }
    let mut out = [0u8; 32];
    let mut i: usize = 0;
    while i < 32
        invariant
            i <= 32,
            data@.len() == 32,
            forall|j: int| 0 <= j < i ==> out@[j] == data@[j],
        decreases 32 - i,
    {
        out[i] = data[i];
        i += 1;
    }
    proof {
        assert(out@ =~= data@);
    }
    Ok(out)
}

/// Reads a byte string of exactly 64 bytes into an array.
pub fn to_array_64(data: &[u8]) -> (r: Result<[u8; 64], StdError>)
    ensures
        data@.len() == 64 ==> (r matches Ok(a) && a@ == data@),
        data@.len() != 64 ==> r == Err::<[u8; 64], StdError>(
            StdError::InvalidDataSize { expected: 64, actual: data@.len() as u64 },
        ),
{
    if data.len() != 64 {
        return Err(StdError::InvalidDataSize { expected: 64, actual: data.len() as u64 });
    }
    let mut out = [0u8; 64];
    let mut i: usize = 0;
    while i < 64
        invariant
            i <= 64,
            data@.len() == 64,
            forall|j: int| 0 <= j < i ==> out@[j] == data@[j],
        decreases 64 - i,
    {
        out[i] = data[i];
        i += 1;
    }
    proof {
        assert(out@ =~= data@);
    }
    Ok(out)
}

/// 32 zero bytes.
pub fn zeros_32() -> (r: [u8; 32])
    ensures
        r@ == Seq::new(32, |i: int| 0u8),
{
    let mut out = [0u8; 32];
    let mut i: usize = 0;
    while i < 32
        invariant
            i <= 32,
            forall|j: int| 0 <= j < i ==> out@[j] == 0,
        decreases 32 - i,
    {
        out[i] = 0;
        i += 1;
    }
    proof {
        assert(out@ =~= Seq::new(32, |i: int| 0u8));
    }
    out
}

/// 64 zero bytes.
pub fn zeros_64() -> (r: [u8; 64])
    ensures
        r@ == Seq::new(64, |i: int| 0u8),
{
    let mut out = [0u8; 64];
    let mut i: usize = 0;
    while i < 64
        invariant
            i <= 64,
            forall|j: int| 0 <= j < i ==> out@[j] == 0,
        decreases 64 - i,
    {
        out[i] = 0;
        i += 1;
    }
    proof {
        assert(out@ =~= Seq::new(64, |i: int| 0u8));
    }
    out
}

/// Whether two arrays of 32 bytes hold the same bytes.
pub fn same_32(a: &[u8; 32], b: &[u8; 32]) -> (r: bool)
    ensures
        r == (a@ == b@),
{
    crate::bytes::bytes_eq(a.as_slice(), b.as_slice())
}

/// Whether two arrays of 64 bytes hold the same bytes.
pub fn same_64(a: &[u8; 64], b: &[u8; 64]) -> (r: bool)
    ensures
        r == (a@ == b@),
{
    crate::bytes::bytes_eq(a.as_slice(), b.as_slice())
}

/// An owned copy of an array's bytes.
pub fn vec_of_32(a: &[u8; 32]) -> (r: Vec<u8>)
    ensures
        r@ == a@,
{
    copy_bytes(a.as_slice())
}

/// An owned copy of an array's bytes.
pub fn vec_of_64(a: &[u8; 64]) -> (r: Vec<u8>)
    ensures
        r@ == a@,
{
    copy_bytes(a.as_slice())
}

} // verus!
