//! The layout of a DCAP version 3 quote, as far as the verifier reads it.

use vstd::prelude::*;
use crate::bytes::copy_bytes;
use crate::state::{MrEnclave, StdError, UserData};

verus! {

/// The length of a quote's header.
pub const HEADER_LEN: usize = 48;

/// The length of a quote's report body.
pub const REPORT_BODY_LEN: usize = 384;

/// Where the enclave's measurement starts.
pub const MR_ENCLAVE_AT: usize = 112;

/// Where the report data starts.
pub const REPORT_DATA_AT: usize = 368;

/// Where the length of the signature data stands.
pub const SIGNATURE_LEN_AT: usize = 432;

/// Where the signature data starts: the shortest quote has this length.
pub const SIGNATURE_AT: usize = 436;

/// The quote version that is read.
pub const QUOTE_VERSION: u16 = 3;

/// The attestation key type of ECDSA-256 with P-256.
pub const KEY_TYPE_ECDSA_P256: u16 = 2;

/// The 16-bit little-endian number at `at`.
pub open spec fn u16_at(bytes: Seq<u8>, at: int) -> int {
    bytes[at] + 256 * bytes[at + 1]
}

/// The 32-bit little-endian number at `at`.
pub open spec fn u32_at(bytes: Seq<u8>, at: int) -> int {
    bytes[at] + 256 * bytes[at + 1] + 65536 * bytes[at + 2] + 16777216 * bytes[at + 3]
}

/// Whether `bytes` are laid out as a version 3 quote signed with ECDSA-256 over
/// P-256: header, report body, and the signature data that the length field
/// announces.
pub open spec fn is_quote(bytes: Seq<u8>) -> bool {
    &&& bytes.len() >= SIGNATURE_AT
    &&& u16_at(bytes, 0) == QUOTE_VERSION
    &&& u16_at(bytes, 2) == KEY_TYPE_ECDSA_P256
    &&& SIGNATURE_AT + u32_at(bytes, SIGNATURE_LEN_AT as int) <= bytes.len()
}

/// The enclave measurement that a quote reports.
pub open spec fn quote_mr_enclave(bytes: Seq<u8>) -> Seq<u8> {
    bytes.subrange(MR_ENCLAVE_AT as int, MR_ENCLAVE_AT + 32)
}

/// The report data that a quote carries.
pub open spec fn quote_report_data(bytes: Seq<u8>) -> Seq<u8> {
    bytes.subrange(REPORT_DATA_AT as int, REPORT_DATA_AT + 64)
}

/// Reads the enclave measurement at its fixed place in a platform quote. Quotes
/// too short to hold one give `None`.
pub fn mr_enclave_of_quote(quote: &[u8]) -> (r: Option<MrEnclave>)
    ensures
        quote@.len() >= MR_ENCLAVE_AT + 32 ==> (r matches Some(m) && m@ == quote_mr_enclave(
            quote@,
        )),
        quote@.len() < MR_ENCLAVE_AT + 32 ==> r.is_none(),
{
    if quote.len() < MR_ENCLAVE_AT + 32 {
        return None;
    }
    let mut out = [0u8; 32];
    let mut i: usize = 0;
    while i < 32
        invariant
            i <= 32,
            quote@.len() >= MR_ENCLAVE_AT + 32,
            forall|j: int| 0 <= j < i ==> out@[j] == quote@[MR_ENCLAVE_AT + j],
        decreases 32 - i,
    {
        out[i] = quote[MR_ENCLAVE_AT + i];
        i += 1;
    }
    proof {
        assert(out@ =~= quote_mr_enclave(quote@));
    }
    Some(out)
}

/// A quote that has been checked for its layout.
pub struct Quote {
    bytes: Vec<u8>,
}

impl Quote {
    /// The quote's bytes.
    pub closed spec fn view(&self) -> Seq<u8> {
        self.bytes@
    }

    #[verifier::type_invariant]
    closed spec fn inv(&self) -> bool {
        is_quote(self.bytes@)
    }

    /// Checks the layout of a quote.
    pub fn parse(bytes: &[u8]) -> (r: Result<Quote, StdError>)
        ensures
            is_quote(bytes@) ==> (r matches Ok(q) && q@ == bytes@),
            !is_quote(bytes@) ==> (r matches Err(e) && e == StdError::ParseQuote),
    {
        if bytes.len() < SIGNATURE_AT {
            return Err(StdError::ParseQuote);
        }
        let version: u32 = bytes[0] as u32 + 256 * (bytes[1] as u32);
        let key_type: u32 = bytes[2] as u32 + 256 * (bytes[3] as u32);
        if version != 3 || key_type != 2 {
            return Err(StdError::ParseQuote);
        }
        let sig_len: u64 = bytes[432] as u64 + 256 * (bytes[433] as u64) + 65536 * (
        bytes[434] as u64) + 16777216 * (bytes[435] as u64);
        if ((bytes.len() - SIGNATURE_AT) as u64) < sig_len {
            return Err(StdError::ParseQuote);
        }
        Ok(Quote { bytes: copy_bytes(bytes) })
    }

    /// The quote's bytes, which are laid out as a quote.
    pub fn as_bytes(&self) -> (r: &[u8])
        ensures
            r@ == self@,
            is_quote(self@),
    {
        proof {
            use_type_invariant(self);
        }
        self.bytes.as_slice()
    }

    /// The enclave measurement that the quote reports.
    pub fn mr_enclave(&self) -> (r: MrEnclave)
        ensures
            r@ == quote_mr_enclave(self@),
    {
        proof {
            use_type_invariant(self);
        }
        let mut out = [0u8; 32];
        let mut i: usize = 0;
        while i < 32
            invariant
                i <= 32,
                self.bytes@.len() >= SIGNATURE_AT,
                forall|j: int| 0 <= j < i ==> out@[j] == self.bytes@[MR_ENCLAVE_AT + j],
            decreases 32 - i,
        {
            out[i] = self.bytes[MR_ENCLAVE_AT + i];
            i += 1;
        }
        proof {
            assert(out@ =~= quote_mr_enclave(self@));
        }
        out
    }

    /// The report data that the quote carries.
    pub fn report_data(&self) -> (r: UserData)
        ensures
            r@ == quote_report_data(self@),
    {
        proof {
            use_type_invariant(self);
        }
        let mut out = [0u8; 64];
        let mut i: usize = 0;
        while i < 64
            invariant
                i <= 64,
                self.bytes@.len() >= SIGNATURE_AT,
                forall|j: int| 0 <= j < i ==> out@[j] == self.bytes@[REPORT_DATA_AT + j],
            decreases 64 - i,
        {
            out[i] = self.bytes[REPORT_DATA_AT + i];
            i += 1;
        }
        proof {
            assert(out@ =~= quote_report_data(self@));
        }
        out
    }
}

impl Clone for Quote {
    fn clone(&self) -> (r: Quote)
        ensures
            r@ == self@,
    {
        proof {
            use_type_invariant(self);
        }
        Quote { bytes: copy_bytes(self.bytes.as_slice()) }
    }
}

} // verus!
