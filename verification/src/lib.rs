//! Quartz: state transitions computed inside an enclave and anchored on a
//! replicated ledger.
//!
//! The ledger holds ciphertext and attested results only. An enclave holds the
//! session's secret key, decrypts the state, applies the pending requests,
//! encrypts the new state and attests what it did; the ledger's contract accepts
//! a result only with an attestation that binds it to the enclave's code.
//!
//! The library holds the decisions of that pipeline, each with a contract that
//! is proved of it:
//!
//! - [`enclave`], [`session`], [`instantiate`], [`contract`]: the handshake that
//!   gives the enclave its session key, on both sides;
//! - [`attested`], [`attestor`], [`quote`]: messages with their attestations, and
//!   the one place where attestations are judged;
//! - [`light_client`], [`membership`], [`proof_of_publication`]: proofs that a
//!   value stands on the ledger;
//! - [`processor`], [`ledger`], [`balances`], [`replay`], [`messages`],
//!   [`codec`], [`json`]: the request processor of the transfers application;
//! - [`dispatcher`], [`drivers`]: what the host does next, given what happened;
//! - [`clearing`], [`epoch`], [`cli`]: the clearing contract with its epochs and
//!   token, and the tooling's decisions;
//! - [`hex`], [`decimal`], [`wire`], [`bytes`], [`state`], [`account`],
//!   [`error`]: the values and texts that the rest is made of.
//!
//! Hashing, encryption, key handling, signature checks, Merkle proofs, address
//! encoding and the reading of CBOR and of JSON in shapes that the library does
//! not write are the work of other crates; [`crypto`], [`account`],
//! [`light_client`], [`membership`], [`attested`] and [`json`] say of each call
//! what is taken on trust.

pub mod account;
pub mod attested;
pub mod attestor;
pub mod balances;
pub mod bytes;
pub mod clearing;
pub mod cli;
pub mod codec;
pub mod contract;
pub mod crypto;
pub mod decimal;
pub mod dispatcher;
pub mod drivers;
pub mod enclave;
pub mod epoch;
pub mod error;
pub mod hex;
pub mod instantiate;
pub mod json;
pub mod ledger;
pub mod light_client;
pub mod membership;
pub mod messages;
pub mod processor;
pub mod proof_of_publication;
pub mod quote;
pub mod replay;
pub mod session;
pub mod state;
pub mod wire;
