//! Epochs of the clearing contract: a counter, and containers that are kept per
//! epoch so that earlier epochs stay readable.

use vstd::prelude::*;
use vstd::string::*;
use crate::bytes::{append_bytes, bytes_eq, copy_bytes};
use crate::crypto::{check_sec1_point, is_sec1_point};
use crate::decimal::{decimal_spec, encode_decimal};
use crate::wire::push_text;

verus! {

/// The storage key of a container in an epoch: the epoch, a slash, and the
/// container's name.
pub open spec fn epoch_key_spec(key: Seq<u8>, epoch: u64) -> Seq<u8> {
    decimal_spec(epoch as nat) + "/".spec_bytes() + key
}

/// The storage key of a container in an epoch.
pub fn epoch_key(key: &[u8], epoch: u64) -> (r: Vec<u8>)
    ensures
        r@ == epoch_key_spec(key@, epoch),
{
    let mut out = encode_decimal(epoch as u128);
    push_text(&mut out, "/");
    append_bytes(&mut out, key);
    out
}

/// The storage key of a container in the current epoch.
pub fn current_epoch_key(key: &[u8], epoch_counter: u64) -> (r: Vec<u8>)
    ensures
        r@ == epoch_key_spec(key@, epoch_counter),
{
    epoch_key(key, epoch_counter)
}

/// The storage key of a container in the epoch before the current one.
pub fn previous_epoch_key(key: &[u8], epoch_counter: u64) -> (r: Vec<u8>)
    requires
        epoch_counter >= 1,
    ensures
        r@ == epoch_key_spec(key@, (epoch_counter - 1) as u64),
{
    epoch_key(key, epoch_counter - 1)
}

/// The owner of the clearing contract.
#[derive(Clone, Debug, PartialEq, Eq)]
pub struct State {
    pub owner: String,
}

/// A payment that clearing settles: the payer's tokens are burnt and the payee's
/// minted.
#[derive(Clone, Debug, PartialEq, Eq)]
pub struct Transfer {
    pub payer: String,
    pub payee: String,
    pub amount: u64,
}

/// The settlement of an obligation: set off against others, or paid.
#[derive(Clone, Debug, PartialEq, Eq)]
pub enum SettleOff {
    SetOff(Vec<Vec<u8>>),
    Transfer(Transfer),
}

/// Why the clearing contract refused.
#[derive(Clone, Copy, Debug, PartialEq, Eq, Structural)]
pub enum ClearingError {
    /// The digest is not 32 bytes long.
    InvalidDigest,
    /// An obligation with the same digest was submitted in this epoch.
    DuplicateEntry,
    /// A liquidity source is no public key.
    InvalidPubKey,
    /// There is no such epoch.
    NoSuchEpoch,
    /// The epoch counter cannot go further.
    EpochOverflow,
    /// A payer holds less than it is to pay.
    InsufficientFunds,
    /// A balance or the supply would be more than 128 bits can say.
    Overflow,
    /// The attestation of the message was not accepted.
    AttestationRejected(crate::attested::AttestationRejected),
    /// A message of the handshake was refused.
    Handshake(crate::contract::ContractError),
}

/// What is kept of one epoch.
pub struct EpochData {
    pub obligations: Vec<(Vec<u8>, Vec<u8>)>,
    pub liquidity_sources: Vec<Vec<u8>>,
}

/// What is kept of one epoch, as values.
pub struct EpochDataView {
    pub obligations: Seq<(Seq<u8>, Seq<u8>)>,
    pub liquidity_sources: Seq<Seq<u8>>,
}

impl View for EpochData {
    type V = EpochDataView;

    open spec fn view(&self) -> EpochDataView {
        EpochDataView {
            obligations: Seq::new(
                self.obligations@.len(),
                |i: int| (self.obligations@[i].0@, self.obligations@[i].1@),
            ),
            liquidity_sources: Seq::new(
                self.liquidity_sources@.len(),
                |i: int| self.liquidity_sources@[i]@,
            ),
        }
    }
}

/// Whether an obligation with `digest` is among `obligations`.
pub open spec fn has_digest(obligations: Seq<(Seq<u8>, Seq<u8>)>, digest: Seq<u8>) -> bool {
    exists|i: int| 0 <= i < obligations.len() && (#[trigger] obligations[i]).0 == digest
}

/// The epochs with other containers for the current one.
pub open spec fn with_current(epochs: Seq<EpochDataView>, current: EpochDataView) -> Seq<
    EpochDataView,
> {
    epochs.drop_last().push(current)
}

/// What storing an obligation does to the epochs: it is kept in the current
/// epoch under its digest, unless the digest is not 32 bytes long or the epoch
/// holds it already.
pub open spec fn obligation_spec(
    epochs: Seq<EpochDataView>,
    ciphertext: Seq<u8>,
    digest: Seq<u8>,
) -> Result<Seq<EpochDataView>, ClearingError> {
    if digest.len() != 32 {
        Err(ClearingError::InvalidDigest)
    } else if has_digest(epochs.last().obligations, digest) {
        Err(ClearingError::DuplicateEntry)
    } else {
        Ok(
            with_current(
                epochs,
                EpochDataView {
                    obligations: epochs.last().obligations.push((digest, ciphertext)),
                    liquidity_sources: epochs.last().liquidity_sources,
                },
            ),
        )
    }
}

/// What storing a list of obligations does to the epochs, each given as its
/// ciphertext and its digest: they are stored one after another, and the first
/// that is refused ends it.
pub open spec fn obligations_spec(
    epochs: Seq<EpochDataView>,
    obligations: Seq<(Seq<u8>, Seq<u8>)>,
) -> Result<Seq<EpochDataView>, ClearingError>
    decreases obligations.len(),
{
    if obligations.len() == 0 {
        Ok(epochs)
    } else {
        match obligations_spec(epochs, obligations.drop_last()) {
            Err(e) => Err(e),
            Ok(stored) => obligation_spec(stored, obligations.last().0, obligations.last().1),
        }
    }
}

/// Whether each of `sources` is the SEC1 encoding of a public key.
pub open spec fn are_keys(sources: Seq<Seq<u8>>) -> bool {
    forall|i: int| 0 <= i < sources.len() ==> is_sec1_point(#[trigger] sources[i])
}

/// What adding liquidity sources does to the epochs: they are added to the
/// current epoch, unless one of them is no public key.
pub open spec fn sources_spec(epochs: Seq<EpochDataView>, sources: Seq<Seq<u8>>) -> Result<
    Seq<EpochDataView>,
    ClearingError,
> {
    if are_keys(sources) {
        Ok(
            with_current(
                epochs,
                EpochDataView {
                    obligations: epochs.last().obligations,
                    liquidity_sources: epochs.last().liquidity_sources + sources,
                },
            ),
        )
    } else {
        Err(ClearingError::InvalidPubKey)
    }
}

/// The epochs of a clearing contract. The epochs count from one, and every epoch
/// up to the current one has its containers.
pub struct Epochs {
    epochs: Vec<EpochData>,
}

impl Epochs {
    /// The containers of the epochs, the first epoch's first.
    pub closed spec fn view(&self) -> Seq<EpochDataView> {
        Seq::new(self.epochs@.len(), |i: int| self.epochs@[i]@)
    }

    /// There is a first epoch, and the count of epochs fits the counter.
    pub open spec fn wf(&self) -> bool {
        1 <= self@.len() <= u64::MAX
    }

    /// The epoch counter: the number of the current epoch.
    pub open spec fn counter(&self) -> nat {
        self@.len()
    }

    /// The epochs of a contract that was just instantiated: the first epoch, with
    /// empty containers.
    pub fn new() -> (r: Epochs)
        ensures
            r.wf(),
            r.counter() == 1,
            r@[0].obligations.len() == 0,
            r@[0].liquidity_sources.len() == 0,
    {
        let mut epochs: Vec<EpochData> = Vec::new();
        epochs.push(EpochData { obligations: Vec::new(), liquidity_sources: Vec::new() });
        Epochs { epochs }
    }

    /// A copy of the epochs.
    pub fn duplicate(&self) -> (r: Epochs)
        ensures
            r@ == self@,
    {
        let mut epochs: Vec<EpochData> = Vec::new();
        let mut i: usize = 0;
        while i < self.epochs.len()
            invariant
                i <= self.epochs.len(),
                epochs@.len() == i,
                forall|j: int| 0 <= j < i ==> (#[trigger] epochs@[j])@ == self.epochs@[j]@,
            decreases self.epochs.len() - i,
        {
            let from = &self.epochs[i];
            let mut obligations: Vec<(Vec<u8>, Vec<u8>)> = Vec::new();
            let mut k: usize = 0;
            while k < from.obligations.len()
                invariant
                    k <= from.obligations.len(),
                    obligations@.len() == k,
                    forall|j: int|
                        0 <= j < k ==> (#[trigger] obligations@[j]).0@ == from.obligations@[j].0@
                            && obligations@[j].1@ == from.obligations@[j].1@,
                decreases from.obligations.len() - k,
            {
                obligations.push(
                    (
                        copy_bytes(from.obligations[k].0.as_slice()),
                        copy_bytes(from.obligations[k].1.as_slice()),
                    ),
                );
                k += 1;
            }
            let mut liquidity_sources: Vec<Vec<u8>> = Vec::new();
            let mut m: usize = 0;
            while m < from.liquidity_sources.len()
                invariant
                    m <= from.liquidity_sources.len(),
                    liquidity_sources@.len() == m,
                    forall|j: int|
                        0 <= j < m ==> (#[trigger] liquidity_sources@[j])@
                            == from.liquidity_sources@[j]@,
                decreases from.liquidity_sources.len() - m,
            {
                liquidity_sources.push(copy_bytes(from.liquidity_sources[m].as_slice()));
                m += 1;
            }
            let data = EpochData { obligations, liquidity_sources };
            proof {
                assert(data@.obligations =~= from@.obligations);
                assert(data@.liquidity_sources =~= from@.liquidity_sources);
            }
            epochs.push(data);
            i += 1;
        }
        let r = Epochs { epochs };
        proof {
            assert(r@ =~= self@);
        }
        r
    }

    /// The number of the current epoch.
    pub fn epoch_counter(&self) -> (r: u64)
        requires
            self.wf(),
        ensures
            r == self.counter(),
    {
        self.epochs.len() as u64
    }

    /// Starts the next epoch with empty containers. The earlier epochs stay as
    /// they are.
    pub fn init_clearing(&mut self) -> (r: Result<(), ClearingError>)
        requires
            old(self).wf(),
        ensures
            final(self).wf(),
            old(self).counter() < u64::MAX ==> r is Ok && final(self).counter() == old(self).counter() + 1 && final(self)@.subrange(0, old(self).counter() as int) == old(self)@
                && final(self)@.last().obligations.len() == 0 && final(self)@.last().liquidity_sources.len() == 0,
            old(self).counter() >= u64::MAX ==> r == Err::<(), ClearingError>(
                ClearingError::EpochOverflow,
            ) && final(self)@ == old(self)@,
    {
        if self.epochs.len() as u64 == u64::MAX {
            return Err(ClearingError::EpochOverflow);
        }
        self.epochs.push(EpochData { obligations: Vec::new(), liquidity_sources: Vec::new() });
        proof {
            assert(self@.subrange(0, old(self).counter() as int) =~= old(self)@);
        }
        Ok(())
    }

    /// The liquidity sources of an epoch, or of the current epoch where none is
    /// named.
    pub fn get_liquidity_sources(&self, epoch: Option<u64>) -> (r: Result<
        Vec<Vec<u8>>,
        ClearingError,
    >)
        requires
            self.wf(),
        ensures
            match epoch {
                None => r matches Ok(v) && crate::wire::texts(v@) == self@.last().liquidity_sources,
                Some(e) => if 1 <= e <= self.counter() {
                    r matches Ok(v) && crate::wire::texts(v@) == self@[e - 1].liquidity_sources
                } else {
                    r matches Err(f) && f == ClearingError::NoSuchEpoch
                },
            },
    {
        let index: usize = match epoch {
            None => self.epochs.len() - 1,
            Some(e) => {
                if e < 1 || e > self.epochs.len() as u64 {
                    return Err(ClearingError::NoSuchEpoch);
                }
                (e - 1) as usize
            },
        };
        let sources = &self.epochs[index].liquidity_sources;
        let mut out: Vec<Vec<u8>> = Vec::new();
        let mut i: usize = 0;
        while i < sources.len()
            invariant
                i <= sources.len(),
                out@.len() == i,
                forall|j: int| 0 <= j < i ==> (#[trigger] out@[j])@ == sources@[j]@,
            decreases sources.len() - i,
        {
            out.push(copy_bytes(sources[i].as_slice()));
            i += 1;
        }
        proof {
            assert(crate::wire::texts(out@) =~= self@[index as int].liquidity_sources);
        }
        Ok(out)
    }

    /// Adds liquidity sources to the current epoch. Each must be the SEC1 encoding
    /// of a public key; if one is not, none is added.
    pub fn append_liquidity_sources(&mut self, sources: Vec<Vec<u8>>) -> (r: Result<
        (),
        ClearingError,
    >)
        requires
            old(self).wf(),
        ensures
            final(self).wf(),
            final(self).counter() == old(self).counter(),
            final(self)@.drop_last() == old(self)@.drop_last(),
            final(self)@.last().obligations == old(self)@.last().obligations,
            match sources_spec(old(self)@, crate::wire::texts(sources@)) {
                Ok(after) => r is Ok && final(self)@ == after,
                Err(e) => r == Err::<(), ClearingError>(e) && final(self)@ == old(self)@,
            },
            (forall|i: int| 0 <= i < sources@.len() ==> is_sec1_point(#[trigger] sources@[i]@))
                ==> r is Ok && final(self)@.last().liquidity_sources == old(self)@.last().liquidity_sources + crate::wire::texts(sources@),
            !(forall|i: int| 0 <= i < sources@.len() ==> is_sec1_point(#[trigger] sources@[i]@))
                ==> r == Err::<(), ClearingError>(ClearingError::InvalidPubKey) && final(self)@
                == old(self)@,
    {
        let mut i: usize = 0;
        while i < sources.len()
            invariant
                i <= sources.len(),
                self@ == old(self)@,
                self.wf(),
                forall|j: int| 0 <= j < i ==> is_sec1_point(#[trigger] sources@[j]@),
            decreases sources.len() - i,
        {
            if !check_sec1_point(sources[i].as_slice()) {
                proof {
                    assert(!is_sec1_point(crate::wire::texts(sources@)[i as int]));
                }
                return Err(ClearingError::InvalidPubKey);
            }
            i += 1;
        }
        proof {
            assert(are_keys(crate::wire::texts(sources@)));
        }
        let last = self.epochs.len() - 1;
        let ghost before = self@;
        let mut k: usize = 0;
        while k < sources.len()
            invariant
                k <= sources.len(),
                last == self.epochs@.len() - 1,
                self@.len() == before.len(),
                1 <= before.len() <= u64::MAX,
                self@.drop_last() == before.drop_last(),
                self@.last().obligations == before.last().obligations,
                self@.last().liquidity_sources == before.last().liquidity_sources
                    + crate::wire::texts(sources@).subrange(0, k as int),
            decreases sources.len() - k,
        {
            let ghost mid = self@;
            let item = copy_bytes(sources[k].as_slice());
            let mut data = EpochData { obligations: Vec::new(), liquidity_sources: Vec::new() };
            core::mem::swap(&mut data, &mut self.epochs[last]);
            data.liquidity_sources.push(item);
            self.epochs[last] = data;
            proof {
                let t = crate::wire::texts(sources@);
                assert(t.subrange(0, k + 1) =~= t.subrange(0, k as int).push(sources@[k as int]@));
                assert(self@.last().liquidity_sources =~= mid.last().liquidity_sources.push(
                    sources@[k as int]@,
                ));
                assert(self@.last().obligations =~= mid.last().obligations);
                assert(self@.drop_last() =~= mid.drop_last());
            }
            k += 1;
        }
        proof {
            let t = crate::wire::texts(sources@);
            assert(t.subrange(0, k as int) =~= t);
            assert(self@ =~= sources_spec(before, t).unwrap());
        }
        Ok(())
    }

    /// Stores an obligation in the current epoch under its digest. A digest that
    /// is not 32 bytes long, and one that the epoch already holds, is refused.
    pub fn submit_obligation(&mut self, ciphertext: Vec<u8>, digest: Vec<u8>) -> (r: Result<
        (),
        ClearingError,
    >)
        requires
            old(self).wf(),
        ensures
            final(self).wf(),
            final(self).counter() == old(self).counter(),
            final(self)@.drop_last() == old(self)@.drop_last(),
            final(self)@.last().liquidity_sources == old(self)@.last().liquidity_sources,
            match obligation_spec(old(self)@, ciphertext@, digest@) {
                Ok(after) => r is Ok && final(self)@ == after,
                Err(e) => r == Err::<(), ClearingError>(e) && final(self)@ == old(self)@,
            },
            digest@.len() != 32 ==> r == Err::<(), ClearingError>(ClearingError::InvalidDigest)
                && final(self)@ == old(self)@,
            digest@.len() == 32 && has_digest(old(self)@.last().obligations, digest@) ==> r
                == Err::<(), ClearingError>(ClearingError::DuplicateEntry) && final(self)@ == old(self)@,
            digest@.len() == 32 && !has_digest(old(self)@.last().obligations, digest@) ==> r is Ok
                && final(self)@.last().obligations == old(self)@.last().obligations.push(
                (digest@, ciphertext@),
            ),
    {
        if digest.len() != 32 {
            return Err(ClearingError::InvalidDigest);
        }
        let last = self.epochs.len() - 1;
        let ghost before = self@;
        let ghost held = before.last().obligations;
        let mut i: usize = 0;
        while i < self.epochs[last].obligations.len()
            invariant
                last == self.epochs@.len() - 1,
                self@ == before,
                before == old(self)@,
                self.wf(),
                digest@.len() == 32,
                held == before.last().obligations,
                1 <= before.len(),
                i <= self.epochs@[last as int].obligations@.len(),
                forall|j: int| 0 <= j < i ==> (#[trigger] held[j]).0 != digest@,
            decreases self.epochs@[last as int].obligations@.len() - i,
        {
            if bytes_eq(self.epochs[last].obligations[i].0.as_slice(), digest.as_slice()) {
                proof {
                    assert(held[i as int].0 == digest@);
                }
                return Err(ClearingError::DuplicateEntry);
            }
            i += 1;
        }
        let mut data = EpochData { obligations: Vec::new(), liquidity_sources: Vec::new() };
        core::mem::swap(&mut data, &mut self.epochs[last]);
        let ghost pair = (digest@, ciphertext@);
        data.obligations.push((digest, ciphertext));
        self.epochs[last] = data;
        proof {
            assert(self@.last().obligations =~= held.push(pair));
            assert(self@.last().liquidity_sources =~= before.last().liquidity_sources);
            assert(self@.drop_last() =~= before.drop_last());
            assert(self@ =~= obligation_spec(before, pair.1, pair.0).unwrap());
        }
        Ok(())
    }
}

/// After the next epoch was started, the epoch before can still be read and holds
/// what it held; the new epoch holds no liquidity sources.
pub proof fn lemma_rollover_keeps_history(before: Seq<EpochDataView>, after: Seq<EpochDataView>)
    requires
        before.len() >= 1,
        after.len() == before.len() + 1,
        after.subrange(0, before.len() as int) == before,
        after.last().liquidity_sources.len() == 0,
    ensures
        after[before.len() - 1] == before.last(),
        after.last().liquidity_sources == Seq::<Seq<u8>>::empty(),
{
    assert(after.subrange(0, before.len() as int)[before.len() - 1] == after[before.len() - 1]);
    assert(after.last().liquidity_sources =~= Seq::<Seq<u8>>::empty());
}

} // verus!
