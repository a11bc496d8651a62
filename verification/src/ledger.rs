//! The state transitions of the transfers application: deposits, transfers and
//! withdrawals folded over the account map.

use vstd::prelude::*;
use crate::balances::Balances;
use crate::bytes::copy_bytes;
use crate::wire::is_plain_text;

verus! {

/// A request in the clear, as values.
pub enum ClearRequestView {
    /// `sender` pays `amount` to `receiver`.
    Transfer { sender: Seq<u8>, receiver: Seq<u8>, amount: u128 },
    /// The account of the address is paid out and closed.
    Withdraw(Seq<u8>),
    /// The address is credited with the amount.
    Deposit(Seq<u8>, u128),
}

/// A request in the clear: what is applied to the account map.
pub enum ClearRequest {
    /// `sender` pays `amount` to `receiver`.
    Transfer { sender: Vec<u8>, receiver: Vec<u8>, amount: u128 },
    /// The account of the address is paid out and closed.
    Withdraw(Vec<u8>),
    /// The address is credited with the amount.
    Deposit(Vec<u8>, u128),
}

impl View for ClearRequest {
    type V = ClearRequestView;

    open spec fn view(&self) -> ClearRequestView {
        match *self {
            ClearRequest::Transfer { sender, receiver, amount } => ClearRequestView::Transfer {
                sender: sender@,
                receiver: receiver@,
                amount,
            },
            ClearRequest::Withdraw(address) => ClearRequestView::Withdraw(address@),
            ClearRequest::Deposit(address, amount) => ClearRequestView::Deposit(address@, amount),
        }
    }
}

/// The views of a list of requests.
pub open spec fn clear_views(requests: Seq<ClearRequest>) -> Seq<ClearRequestView> {
    Seq::new(requests.len(), |i: int| requests[i]@)
}

/// A payout: an address and what its account held.
pub type Withdrawal = (Seq<u8>, u128);

/// The account map and the payouts made so far.
pub struct Outcome {
    pub balances: Map<Seq<u8>, u128>,
    pub withdrawals: Seq<Withdrawal>,
}

/// What an account holds, an account that is not there counting as empty.
pub open spec fn balance_of(balances: Map<Seq<u8>, u128>, address: Seq<u8>) -> u128 {
    if balances.contains_key(address) {
        balances[address]
    } else {
        0
    }
}

/// The account map after `address` was credited with `amount`, or `None` where
/// the account would hold more than 128 bits can say.
pub open spec fn credit(balances: Map<Seq<u8>, u128>, address: Seq<u8>, amount: u128) -> Option<
    Map<Seq<u8>, u128>,
> {
    if balance_of(balances, address) + amount > u128::MAX {
        None
    } else {
        Some(balances.insert(address, (balance_of(balances, address) + amount) as u128))
    }
}

/// The effect of one request. A transfer that the sender cannot pay, and a
/// withdrawal from an account that is not there, change nothing. `None` stands for
/// an account that would overflow.
pub open spec fn apply_one(before: Outcome, request: ClearRequestView) -> Option<Outcome> {
    match request {
        ClearRequestView::Transfer { sender, receiver, amount } => {
            if before.balances.contains_key(sender) && before.balances[sender] >= amount {
                let debited = before.balances.insert(
                    sender,
                    (before.balances[sender] - amount) as u128,
                );
                match credit(debited, receiver, amount) {
                    Some(credited) => Some(
                        Outcome { balances: credited, withdrawals: before.withdrawals },
                    ),
                    None => None,
                }
            } else {
                Some(before)
            }
        },
        ClearRequestView::Withdraw(address) => {
            if before.balances.contains_key(address) {
                Some(
                    Outcome {
                        balances: before.balances.remove(address),
                        withdrawals: before.withdrawals.push((address, before.balances[address])),
                    },
                )
            } else {
                Some(before)
            }
        },
        ClearRequestView::Deposit(address, amount) => {
            match credit(before.balances, address, amount) {
                Some(credited) => Some(
                    Outcome { balances: credited, withdrawals: before.withdrawals },
                ),
                None => None,
            }
        },
    }
}

/// The effect of a batch: its requests applied in order.
pub open spec fn apply_all(before: Outcome, requests: Seq<ClearRequestView>) -> Option<Outcome>
    decreases requests.len(),
{
    if requests.len() == 0 {
        Some(before)
    } else {
        match apply_all(before, requests.drop_last()) {
            None => None,
            Some(middle) => apply_one(middle, requests.last()),
        }
    }
}

/// An empty batch changes nothing.
pub proof fn lemma_empty_batch(before: Outcome)
    ensures
        apply_all(before, Seq::<ClearRequestView>::empty()) == Some(before),
{
}

/// A withdrawal from an account that is not there pays nothing out and changes
/// nothing.
pub proof fn lemma_withdraw_absent(before: Outcome, address: Seq<u8>)
    requires
        !before.balances.contains_key(address),
    ensures
        apply_one(before, ClearRequestView::Withdraw(address)) == Some(before),
{
}

/// A transfer of more than the sender holds, or from an account that is not
/// there, changes nothing.
pub proof fn lemma_transfer_unfunded(
    before: Outcome,
    sender: Seq<u8>,
    receiver: Seq<u8>,
    amount: u128,
)
    requires
        balance_of(before.balances, sender) < amount,
    ensures
        apply_one(before, ClearRequestView::Transfer { sender, receiver, amount }) == Some(before),
{
}

/// Applying a batch and then one more request is applying the longer batch.
pub proof fn lemma_apply_push(before: Outcome, requests: Seq<ClearRequestView>, next: ClearRequestView)
    ensures
        apply_all(before, requests.push(next)) == match apply_all(before, requests) {
            None => None,
            Some(middle) => apply_one(middle, next),
        },
{
    assert(requests.push(next).drop_last() =~= requests);
}

/// Whether every address of the account map can be written as a JSON string as it
/// is.
pub open spec fn plain_keys(balances: Map<Seq<u8>, u128>) -> bool {
    forall|k: Seq<u8>| balances.contains_key(k) ==> is_plain_text(k)
}

/// Whether the addresses of a request in the clear can be written as they are.
pub open spec fn clear_is_plain(request: ClearRequestView) -> bool {
    match request {
        ClearRequestView::Transfer { sender, receiver, .. } => is_plain_text(sender)
            && is_plain_text(receiver),
        ClearRequestView::Withdraw(address) => is_plain_text(address),
        ClearRequestView::Deposit(address, _) => is_plain_text(address),
    }
}

/// A request with plain addresses leaves the account map with plain addresses.
pub proof fn lemma_request_keeps_keys_plain(before: Outcome, request: ClearRequestView)
    requires
        plain_keys(before.balances),
        clear_is_plain(request),
        apply_one(before, request) is Some,
    ensures
        plain_keys(apply_one(before, request).unwrap().balances),
{
}

/// A batch with plain addresses leaves the account map with plain addresses.
pub proof fn lemma_batch_keeps_keys_plain(before: Outcome, requests: Seq<ClearRequestView>)
    requires
        plain_keys(before.balances),
        forall|i: int| 0 <= i < requests.len() ==> clear_is_plain(#[trigger] requests[i]),
        apply_all(before, requests) is Some,
    ensures
        plain_keys(apply_all(before, requests).unwrap().balances),
    decreases requests.len(),
{
    if requests.len() > 0 {
        let init = requests.drop_last();
        assert forall|i: int| 0 <= i < init.len() implies clear_is_plain(#[trigger] init[i]) by {
            assert(init[i] == requests[i]);
        }
        lemma_batch_keeps_keys_plain(before, init);
        assert(clear_is_plain(requests[requests.len() - 1]));
        lemma_request_keeps_keys_plain(apply_all(before, init).unwrap(), requests.last());
    }
}

/// Why a batch cannot be applied.
#[derive(Clone, Copy, Debug, PartialEq, Eq, Structural)]
pub enum LedgerError {
    /// An account would hold more than 128 bits can say.
    BalanceOverflow,
}

/// Credits an account, opening it if it is not there.
fn credit_account(balances: &mut Balances, address: &[u8], amount: u128) -> (r: Result<
    (),
    LedgerError,
>)
    requires
        old(balances).wf(),
    ensures
        final(balances).wf(),
        match credit(old(balances)@, address@, amount) {
            Some(m) => r.is_ok() && final(balances)@ == m,
            None => r.is_err() && final(balances)@ == old(balances)@,
        },
{
    let held: u128 = match balances.get(address) {
        Some(b) => b,
        None => 0,
    };
    match held.checked_add(amount) {
        Some(sum) => {
            balances.set(address, sum);
            Ok(())
        },
        None => Err(LedgerError::BalanceOverflow),
    }
}

/// Applies one request to the account map, appending to `withdrawals` what it
/// pays out. A request that would overflow an account changes nothing.
pub fn apply_request(
    balances: &mut Balances,
    withdrawals: &mut Vec<(Vec<u8>, u128)>,
    request: &ClearRequest,
) -> (r: Result<(), LedgerError>)
    requires
        old(balances).wf(),
    ensures
        final(balances).wf(),
        match apply_one(
            Outcome { balances: old(balances)@, withdrawals: withdrawal_views(old(withdrawals)@) },
            request@,
        ) {
            Some(after) => r.is_ok() && final(balances)@ == after.balances && withdrawal_views(
                final(withdrawals)@,
            ) == after.withdrawals,
            None => r == Err::<(), LedgerError>(LedgerError::BalanceOverflow) && final(balances)@
                == old(balances)@ && final(withdrawals)@ == old(withdrawals)@,
        },
{
    match request {
        ClearRequest::Transfer { sender, receiver, amount } => {
            let held = balances.get(sender.as_slice());
            match held {
                Some(b) => {
                    if b >= *amount {
                        balances.set(sender.as_slice(), b - *amount);
                        match credit_account(balances, receiver.as_slice(), *amount) {
                            Ok(()) => Ok(()),
                            Err(_) => {
                                // The receiver cannot take the amount: the sender gets it back.
                                balances.set(sender.as_slice(), b);
                                proof {
                                    assert(balances@ =~= old(balances)@);
                                }
                                Err(LedgerError::BalanceOverflow)
                            },
                        }
                    } else {
                        Ok(())
                    }
                },
                None => Ok(()),
            }
        },
        ClearRequest::Withdraw(address) => {
            match balances.remove(address.as_slice()) {
                Some(b) => {
                    let ghost before = withdrawal_views(withdrawals@);
                    withdrawals.push((copy_bytes(address.as_slice()), b));
                    proof {
                        assert(withdrawal_views(withdrawals@) =~= before.push((address@, b)));
                    }
                    Ok(())
                },
                None => {
                    proof {
                        assert(balances@ =~= old(balances)@);
                    }
                    Ok(())
                },
            }
        },
        ClearRequest::Deposit(address, amount) => {
            match credit_account(balances, address.as_slice(), *amount) {
                Ok(()) => Ok(()),
                Err(_) => Err(LedgerError::BalanceOverflow),
            }
        },
    }
}

/// A list of payouts as values.
pub open spec fn withdrawal_views(withdrawals: Seq<(Vec<u8>, u128)>) -> Seq<Withdrawal> {
    Seq::new(withdrawals.len(), |i: int| (withdrawals[i].0@, withdrawals[i].1))
}

/// Applies a batch to a copy of the account map. The map that was handed in is
/// left as it was, so a batch that fails changes nothing.
pub fn apply_requests(balances: &Balances, requests: &Vec<ClearRequest>) -> (r: Result<
    (Balances, Vec<(Vec<u8>, u128)>),
    LedgerError,
>)
    requires
        balances.wf(),
    ensures
        match apply_all(
            Outcome { balances: balances@, withdrawals: Seq::<Withdrawal>::empty() },
            clear_views(requests@),
        ) {
            Some(after) => r matches Ok(out) && out.0.wf() && out.0@ == after.balances
                && withdrawal_views(out.1@) == after.withdrawals,
            None => r matches Err(e) && e == LedgerError::BalanceOverflow,
        },
{
    let mut state = balances.duplicate();
    let mut withdrawals: Vec<(Vec<u8>, u128)> = Vec::new();
    let ghost start = Outcome { balances: balances@, withdrawals: Seq::<Withdrawal>::empty() };
    let ghost views = clear_views(requests@);
    proof {
        assert(withdrawal_views(withdrawals@) =~= Seq::<Withdrawal>::empty());
        assert(views.subrange(0, 0) =~= Seq::<ClearRequestView>::empty());
    }
    let mut i: usize = 0;
    while i < requests.len()
        invariant
            i <= requests.len(),
            state.wf(),
            views == clear_views(requests@),
            start == (Outcome { balances: balances@, withdrawals: Seq::<Withdrawal>::empty() }),
            apply_all(start, views.subrange(0, i as int)) == Some(
                Outcome { balances: state@, withdrawals: withdrawal_views(withdrawals@) },
            ),
        decreases requests.len() - i,
    {
        let ghost done = views.subrange(0, i as int);
        proof {
            assert(views.subrange(0, i + 1) =~= done.push(views[i as int]));
            lemma_apply_push(start, done, views[i as int]);
            assert(views[i as int] == requests@[i as int]@);
        }
        match apply_request(&mut state, &mut withdrawals, &requests[i]) {
            Ok(()) => {},
            Err(_) => {
                proof {
                    lemma_overflow_stays(start, views, i + 1);
                }
                return Err(LedgerError::BalanceOverflow);
            },
        }
        i += 1;
    }
    proof {
        assert(views.subrange(0, i as int) =~= views);
    }
    Ok((state, withdrawals))
}

/// Once a prefix of a batch overflows, the batch does.
pub proof fn lemma_overflow_stays(before: Outcome, requests: Seq<ClearRequestView>, k: int)
    requires
        0 <= k <= requests.len(),
        apply_all(before, requests.subrange(0, k)).is_none(),
    ensures
        apply_all(before, requests).is_none(),
    decreases requests.len() - k,
{
    if k == requests.len() {
        assert(requests.subrange(0, k) =~= requests);
    } else {
        assert(requests.subrange(0, k + 1) =~= requests.subrange(0, k).push(requests[k]));
        lemma_apply_push(before, requests.subrange(0, k), requests[k]);
        lemma_overflow_stays(before, requests, k + 1);
    }
}

} // verus!
