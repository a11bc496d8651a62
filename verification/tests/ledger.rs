use quartz::balances::Balances;
use quartz::ledger::{apply_request, apply_requests, ClearRequest, LedgerError};
use quartz::replay::{ensure_seq_num_consistency, SeqError};

fn deposit(who: &[u8], amount: u128) -> ClearRequest {
    ClearRequest::Deposit(who.to_vec(), amount)
}

fn transfer(from: &[u8], to: &[u8], amount: u128) -> ClearRequest {
    ClearRequest::Transfer { sender: from.to_vec(), receiver: to.to_vec(), amount }
}

fn withdraw(who: &[u8]) -> ClearRequest {
    ClearRequest::Withdraw(who.to_vec())
}

#[test]
fn balances_keep_one_entry_per_address() {
    let mut b = Balances::new();
    assert_eq!(b.get(b"alice"), None);
    b.set(b"alice", 5);
    b.set(b"alice", 7);
    b.set(b"bob", 1);
    assert_eq!(b.len(), 2);
    assert_eq!(b.get(b"alice"), Some(7));
    assert_eq!(b.key_at(0), &b"alice".to_vec());
    assert_eq!(b.key_at(1), &b"bob".to_vec());
    assert_eq!(b.amount_at(1), 1);
    assert_eq!(b.remove(b"alice"), Some(7));
    assert_eq!(b.remove(b"alice"), None);
    assert_eq!(b.len(), 1);
    let copy = b.duplicate();
    assert_eq!(copy.get(b"bob"), Some(1));
}

#[test]
fn balances_from_entries_want_ascending_addresses() {
    assert!(Balances::from_entries(vec![(b"a".to_vec(), 1), (b"b".to_vec(), 2)]).is_some());
    assert!(Balances::from_entries(vec![(b"b".to_vec(), 1), (b"a".to_vec(), 2)]).is_none());
    assert!(Balances::from_entries(vec![(b"a".to_vec(), 1), (b"a".to_vec(), 2)]).is_none());
    assert!(Balances::from_entries(vec![]).is_some());
}

#[test]
fn transfer_path_pays_out_what_was_transferred() {
    let start = Balances::new();
    let batch = vec![deposit(b"alice", 100), transfer(b"alice", b"bob", 30), withdraw(b"bob")];
    let (state, withdrawals) = apply_requests(&start, &batch).expect("no overflow");
    assert_eq!(withdrawals, vec![(b"bob".to_vec(), 30u128)]);
    assert_eq!(state.len(), 1);
    assert_eq!(state.get(b"alice"), Some(70));
    assert_eq!(state.get(b"bob"), None);
    assert_eq!(start.len(), 0);
}

#[test]
fn empty_batch_changes_nothing() {
    let mut start = Balances::new();
    start.set(b"alice", 3);
    let (state, withdrawals) = apply_requests(&start, &vec![]).expect("no overflow");
    assert!(withdrawals.is_empty());
    assert_eq!(state.len(), 1);
    assert_eq!(state.get(b"alice"), Some(3));
}

#[test]
fn withdrawal_of_an_absent_address_pays_nothing() {
    let mut start = Balances::new();
    start.set(b"alice", 3);
    let (state, withdrawals) = apply_requests(&start, &vec![withdraw(b"bob")]).expect("ok");
    assert!(withdrawals.is_empty());
    assert_eq!(state.get(b"alice"), Some(3));
    assert_eq!(state.len(), 1);
}

#[test]
fn transfer_without_funds_is_a_no_op() {
    let mut start = Balances::new();
    start.set(b"alice", 3);
    let batch = vec![transfer(b"alice", b"bob", 4), transfer(b"carol", b"bob", 1)];
    let (state, withdrawals) = apply_requests(&start, &batch).expect("ok");
    assert!(withdrawals.is_empty());
    assert_eq!(state.get(b"alice"), Some(3));
    assert_eq!(state.get(b"bob"), None);
}

#[test]
fn transfer_of_everything_leaves_an_empty_account() {
    let mut start = Balances::new();
    start.set(b"alice", 3);
    let (state, _) = apply_requests(&start, &vec![transfer(b"alice", b"bob", 3)]).expect("ok");
    assert_eq!(state.get(b"alice"), Some(0));
    assert_eq!(state.get(b"bob"), Some(3));
}

#[test]
fn transfer_to_oneself_keeps_the_balance() {
    let mut start = Balances::new();
    start.set(b"alice", 3);
    let (state, _) = apply_requests(&start, &vec![transfer(b"alice", b"alice", 2)]).expect("ok");
    assert_eq!(state.get(b"alice"), Some(3));
}

#[test]
fn overflow_of_an_account_fails_the_batch() {
    let mut start = Balances::new();
    start.set(b"alice", u128::MAX);
    let r = apply_requests(&start, &vec![deposit(b"bob", 1), deposit(b"alice", 1)]);
    assert!(matches!(r, Err(LedgerError::BalanceOverflow)));
    assert_eq!(start.get(b"alice"), Some(u128::MAX));
    assert_eq!(start.get(b"bob"), None);
}

#[test]
fn one_request_at_a_time() {
    let mut state = Balances::new();
    let mut paid: Vec<(Vec<u8>, u128)> = Vec::new();
    assert_eq!(apply_request(&mut state, &mut paid, &deposit(b"alice", 10)), Ok(()));
    assert_eq!(apply_request(&mut state, &mut paid, &deposit(b"alice", 5)), Ok(()));
    assert_eq!(apply_request(&mut state, &mut paid, &withdraw(b"alice")), Ok(()));
    assert_eq!(paid, vec![(b"alice".to_vec(), 15u128)]);
    assert_eq!(state.len(), 0);
}

#[test]
fn replay_guard_accepts_the_exact_advance() {
    assert_eq!(ensure_seq_num_consistency(3, 5, 2), Ok(5));
    assert_eq!(ensure_seq_num_consistency(0, 0, 0), Ok(0));
    assert_eq!(ensure_seq_num_consistency(u64::MAX, u64::MAX, 0), Ok(u64::MAX));
}

#[test]
fn replay_guard_rejects_smaller_numbers_as_replay() {
    assert_eq!(ensure_seq_num_consistency(5, 4, 0), Err(SeqError::ReplayAttempted));
    assert_eq!(ensure_seq_num_consistency(3, 4, 2), Err(SeqError::ReplayAttempted));
    assert_eq!(ensure_seq_num_consistency(u64::MAX, u64::MAX, 1), Err(SeqError::ReplayAttempted));
}

#[test]
fn replay_guard_rejects_larger_numbers_as_mismatch() {
    assert_eq!(ensure_seq_num_consistency(5, 7, 1), Err(SeqError::SeqMismatch));
}

#[test]
fn replay_rejection_of_a_second_update_with_the_same_number() {
    let local = ensure_seq_num_consistency(4, 5, 1).expect("the first update");
    assert_eq!(local, 5);
    assert_eq!(ensure_seq_num_consistency(local, 5, 1), Err(SeqError::ReplayAttempted));
}

#[test]
fn a_transfer_that_overflows_the_receiver_changes_nothing() {
    let mut state = Balances::new();
    state.set(b"alice", 5);
    state.set(b"bob", u128::MAX);
    let mut paid: Vec<(Vec<u8>, u128)> = Vec::new();
    let r = apply_request(&mut state, &mut paid, &transfer(b"alice", b"bob", 1));
    assert_eq!(r, Err(LedgerError::BalanceOverflow));
    assert_eq!(state.get(b"alice"), Some(5));
    assert_eq!(state.get(b"bob"), Some(u128::MAX));
    assert!(paid.is_empty());
    let r = apply_request(&mut state, &mut paid, &deposit(b"bob", 1));
    assert_eq!(r, Err(LedgerError::BalanceOverflow));
    assert_eq!(state.get(b"bob"), Some(u128::MAX));
}
