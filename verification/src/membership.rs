//! Membership of a key and value under a Merkle root, proved by an ICS23 existence
//! proof. Recomputing the root and checking the proof against a tree's rules is
//! the work of the `ics23` crate; which proofs are taken to it, and what each
//! outcome means, is decided here.

use ics23::commitment_proof::Proof;
use ics23::HostFunctionsManager;
use vstd::prelude::*;
use crate::bytes::bytes_eq;

verus! {

/// The operation that hashes a leaf.
pub struct LeafOp {
    pub hash: i32,
    pub prehash_key: i32,
    pub prehash_value: i32,
    pub length: i32,
    pub prefix: Vec<u8>,
}

/// A leaf operation as values.
pub struct LeafOpView {
    pub hash: i32,
    pub prehash_key: i32,
    pub prehash_value: i32,
    pub length: i32,
    pub prefix: Seq<u8>,
}

impl View for LeafOp {
    type V = LeafOpView;

    open spec fn view(&self) -> LeafOpView {
        LeafOpView {
            hash: self.hash,
            prehash_key: self.prehash_key,
            prehash_value: self.prehash_value,
            length: self.length,
            prefix: self.prefix@,
        }
    }
}

/// One step from a node to its parent.
pub struct InnerOp {
    pub hash: i32,
    pub prefix: Vec<u8>,
    pub suffix: Vec<u8>,
}

/// An inner operation as values.
pub struct InnerOpView {
    pub hash: i32,
    pub prefix: Seq<u8>,
    pub suffix: Seq<u8>,
}

impl View for InnerOp {
    type V = InnerOpView;

    open spec fn view(&self) -> InnerOpView {
        InnerOpView { hash: self.hash, prefix: self.prefix@, suffix: self.suffix@ }
    }
}

/// A proof that a key holds a value: the leaf and the path from it to the root.
pub struct ExistenceProof {
    pub key: Vec<u8>,
    pub value: Vec<u8>,
    pub leaf: Option<LeafOp>,
    pub path: Vec<InnerOp>,
}

/// An existence proof as values.
pub struct ExistenceProofView {
    pub key: Seq<u8>,
    pub value: Seq<u8>,
    pub leaf: Option<LeafOpView>,
    pub path: Seq<InnerOpView>,
}

impl View for ExistenceProof {
    type V = ExistenceProofView;

    open spec fn view(&self) -> ExistenceProofView {
        ExistenceProofView {
            key: self.key@,
            value: self.value@,
            leaf: match self.leaf {
                Some(l) => Some(l@),
                None => None,
            },
            path: Seq::new(self.path@.len(), |i: int| self.path@[i]@),
        }
    }
}

/// A commitment proof. Only existence proofs are read; of the other kinds it is
/// enough to know that they are not one.
pub enum CommitmentProof {
    Exist(ExistenceProof),
    Nonexist,
    Batch,
    Compressed,
    Missing,
}

/// The rules of the tree that a proof is checked against.
#[derive(Clone, Copy, Debug, PartialEq, Eq, Structural)]
pub enum ProofSpec {
    /// An IAVL tree, as the stores of an application are.
    Iavl,
    /// A Tendermint simple Merkle tree, as the tree of the stores is.
    Tendermint,
}

/// Why a proof was not accepted.
#[derive(Clone, Copy, Debug, PartialEq, Eq, Structural)]
pub enum ProofError {
    /// The value to prove is empty.
    EmptyVerifiedValue,
    /// The proof is no existence proof, or no root can be computed from it.
    InvalidMerkleProof,
    /// The proof does not show the key and value under its root, or the root is
    /// not the expected one.
    VerificationFailure,
}

/// The root that an existence proof leads to, or `None` where none can be
/// computed from it.
pub uninterp spec fn existence_root_spec(proof: ExistenceProofView) -> Option<Seq<u8>>;

/// Whether an existence proof shows `key` and `value` under `root` by the rules of
/// an IAVL tree.
pub uninterp spec fn iavl_membership_spec(
    proof: ExistenceProofView,
    root: Seq<u8>,
    key: Seq<u8>,
    value: Seq<u8>,
) -> bool;

/// Whether an existence proof shows `key` and `value` under `root` by the rules of
/// a Tendermint simple Merkle tree.
pub uninterp spec fn tendermint_membership_spec(
    proof: ExistenceProofView,
    root: Seq<u8>,
    key: Seq<u8>,
    value: Seq<u8>,
) -> bool;

/// Calls `ics23::calculate_existence_root` with the crate's own hash functions, on
/// the proof rebuilt field by field in the crate's types. Trusted: the outcome
/// depends on the proof alone; `None` stands for the crate's error.
#[verifier::external_body]
fn calculate_root(p: &ExistenceProof) -> (r: Option<Vec<u8>>)
    ensures
        r.is_some() == existence_root_spec(p@).is_some(),
        r matches Some(root) ==> root@ == existence_root_spec(p@).unwrap(),
{
    let leaf = p.leaf.as_ref().map(|l| ics23::LeafOp {
        hash: l.hash,
        prehash_key: l.prehash_key,
        prehash_value: l.prehash_value,
        length: l.length,
        prefix: l.prefix.clone(),
    });
    let path = p.path.iter().map(|s| ics23::InnerOp {
        hash: s.hash, prefix: s.prefix.clone(), suffix: s.suffix.clone(),
    }).collect();
    let e = ics23::ExistenceProof { key: p.key.clone(), value: p.value.clone(), leaf, path };
    ics23::calculate_existence_root::<HostFunctionsManager>(&e).ok()
}

/// Calls `ics23::verify_membership` with `ics23::iavl_spec()` and the crate's own
/// hash functions, on the proof rebuilt field by field in the crate's types.
/// Trusted: the outcome depends on the arguments alone.
#[verifier::external_body]
fn check_iavl(p: &ExistenceProof, root: &Vec<u8>, key: &[u8], value: &[u8]) -> (r: bool)
    ensures
        r == iavl_membership_spec(p@, root@, key@, value@),
{
    let leaf = p.leaf.as_ref().map(|l| ics23::LeafOp {
        hash: l.hash,
        prehash_key: l.prehash_key,
        prehash_value: l.prehash_value,
        length: l.length,
        prefix: l.prefix.clone(),
    });
    let path = p.path.iter().map(|s| ics23::InnerOp {
        hash: s.hash, prefix: s.prefix.clone(), suffix: s.suffix.clone(),
    }).collect();
    let e = ics23::ExistenceProof { key: p.key.clone(), value: p.value.clone(), leaf, path };
    let c = ics23::CommitmentProof { proof: Some(Proof::Exist(e)) };
    ics23::verify_membership::<HostFunctionsManager>(&c, &ics23::iavl_spec(), root, key, value)
}

/// Calls `ics23::verify_membership` with `ics23::tendermint_spec()` and the crate's
/// own hash functions, on the proof rebuilt field by field in the crate's types.
/// Trusted: the outcome depends on the arguments alone.
#[verifier::external_body]
fn check_tendermint(p: &ExistenceProof, root: &Vec<u8>, key: &[u8], value: &[u8]) -> (r: bool)
    ensures
        r == tendermint_membership_spec(p@, root@, key@, value@),
{
    let leaf = p.leaf.as_ref().map(|l| ics23::LeafOp {
        hash: l.hash,
        prehash_key: l.prehash_key,
        prehash_value: l.prehash_value,
        length: l.length,
        prefix: l.prefix.clone(),
    });
    let path = p.path.iter().map(|s| ics23::InnerOp {
        hash: s.hash, prefix: s.prefix.clone(), suffix: s.suffix.clone(),
    }).collect();
    let e = ics23::ExistenceProof { key: p.key.clone(), value: p.value.clone(), leaf, path };
    let c = ics23::CommitmentProof { proof: Some(Proof::Exist(e)) };
    ics23::verify_membership::<HostFunctionsManager>(&c, &ics23::tendermint_spec(), root, key, value)
}

/// Whether a proof shows `key` and `value` under `root` by the rules of `spec`.
pub open spec fn membership_spec(
    spec: ProofSpec,
    proof: ExistenceProofView,
    root: Seq<u8>,
    key: Seq<u8>,
    value: Seq<u8>,
) -> bool {
    match spec {
        ProofSpec::Iavl => iavl_membership_spec(proof, root, key, value),
        ProofSpec::Tendermint => tendermint_membership_spec(proof, root, key, value),
    }
}

/// What verifying a proof gives, from what the proof is and what the tree's rules
/// say of it: the recomputed root, or the reason for refusing.
pub open spec fn verify_spec(
    spec: ProofSpec,
    commitment: CommitmentProof,
    key: Seq<u8>,
    value: Seq<u8>,
) -> Result<Seq<u8>, ProofError> {
    if value.len() == 0 {
        Err(ProofError::EmptyVerifiedValue)
    } else {
        match commitment {
            CommitmentProof::Exist(existence) => match existence_root_spec(existence@) {
                None => Err(ProofError::InvalidMerkleProof),
                Some(root) => if existence@.key == key && existence@.value == value
                    && membership_spec(spec, existence@, root, key, value) {
                    Ok(root)
                } else {
                    Err(ProofError::VerificationFailure)
                },
            },
            _ => Err(ProofError::InvalidMerkleProof),
        }
    }
}

/// The verdict on a proof, given the root that was recomputed from it and what
/// the tree's rules said.
pub fn conclude(recomputed: Option<Vec<u8>>, is_member: bool) -> (r: Result<Vec<u8>, ProofError>)
    ensures
        recomputed is None ==> r == Err::<Vec<u8>, ProofError>(ProofError::InvalidMerkleProof),
        recomputed is Some && !is_member ==> r == Err::<Vec<u8>, ProofError>(
            ProofError::VerificationFailure,
        ),
        recomputed is Some && is_member ==> r == Ok::<Vec<u8>, ProofError>(recomputed.unwrap()),
{
    match recomputed {
        None => Err(ProofError::InvalidMerkleProof),
        Some(root) => if is_member {
            Ok(root)
        } else {
            Err(ProofError::VerificationFailure)
        },
    }
}

/// Verifies membership proofs against the rules of one kind of tree.
#[derive(Clone, Copy, Debug)]
pub struct Ics23MembershipVerifier {
    spec: ProofSpec,
}

impl Ics23MembershipVerifier {
    /// A verifier for the rules of `spec`.
    pub fn new(spec: ProofSpec) -> (r: Self)
        ensures
            r.spec() == spec,
    {
        Self { spec }
    }

    /// The rules that the verifier checks against.
    pub closed spec fn spec(&self) -> ProofSpec {
        self.spec
    }

    /// Verifies that `commitment` shows `key` and `value`, and returns the root that the
    /// proof leads to. The caller holds that root against the one it trusts.
    pub fn verify(&self, commitment: &CommitmentProof, key: &[u8], value: &[u8]) -> (r: Result<
        Vec<u8>,
        ProofError,
    >)
        ensures
            match verify_spec(self.spec(), *commitment, key@, value@) {
                Ok(root) => r matches Ok(v) && v@ == root,
                Err(e) => r matches Err(f) && f == e,
            },
    {
        if value.len() == 0 {
            return Err(ProofError::EmptyVerifiedValue);
        }
        let existence = match commitment {
            CommitmentProof::Exist(e) => e,
            _ => {
                return Err(ProofError::InvalidMerkleProof);
            },
        };
        let root = match calculate_root(existence) {
            Some(r) => r,
            None => {
                return Err(ProofError::InvalidMerkleProof);
            },
        };
        if !bytes_eq(existence.key.as_slice(), key) || !bytes_eq(existence.value.as_slice(), value) {
            return Err(ProofError::VerificationFailure);
        }
        let is_member = match self.spec {
            ProofSpec::Iavl => check_iavl(existence, &root, key, value),
            ProofSpec::Tendermint => check_tendermint(existence, &root, key, value),
        };
        conclude(Some(root), is_member)
    }

    /// Verifies that `commitment` shows `key` and `value` under `root`.
    pub fn verify_under(
        &self,
        root: &[u8],
        commitment: &CommitmentProof,
        key: &[u8],
        value: &[u8],
    ) -> (r: Result<Vec<u8>, ProofError>)
        ensures
            match verify_spec(self.spec(), *commitment, key@, value@) {
                Ok(found) => if found == root@ {
                    r matches Ok(v) && v@ == root@
                } else {
                    r matches Err(f) && f == ProofError::VerificationFailure
                },
                Err(e) => r matches Err(f) && f == e,
            },
    {
        match self.verify(commitment, key, value) {
            Ok(found) => if bytes_eq(found.as_slice(), root) {
                Ok(found)
            } else {
                Err(ProofError::VerificationFailure)
            },
            Err(e) => Err(e),
        }
    }
}

} // verus!
