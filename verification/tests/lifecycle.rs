//! End-to-end scenarios of the swap lifecycle against the registry.

use htlc::registry::Pallet;
use htlc::swap::{Error, Event};

const ALICE: u64 = 1;
const BOB: u64 = 2;
const CAROL: u64 = 3;

fn sha(bytes: &[u8]) -> [u8; 32] {
    let digest = <sha2::Sha256 as sha2::Digest>::digest(bytes);
    digest.into()
}

/// A registry at height 10 where ALICE and BOB each own 1000 free.
fn setup() -> Pallet {
    let mut p = Pallet::new();
    assert!(p.deposit(ALICE, 1000));
    assert!(p.deposit(BOB, 1000));
    p.set_height(10);
    p
}

#[test]
fn create_reports_active_and_held() {
    let mut p = setup();
    let r = p.create_swap(ALICE, 1, sha(b"secret"), BOB, 100, 50);
    assert_eq!(r, Ok(110));
    let s = p.swaps(1).unwrap();
    assert!(!s.claimed);
    assert!(!s.refunded);
    assert_eq!(s.sender, ALICE);
    assert_eq!(s.receiver, BOB);
    assert_eq!(s.amount, 50);
    assert_eq!(s.timelock, 110);
    assert_eq!(s.hash, sha(b"secret"));
    let a = p.balance(ALICE);
    assert_eq!(a.free, 950);
    assert_eq!(a.reserved, 50);
}

#[test]
fn create_twice_fails_and_keeps_first_record() {
    let mut p = setup();
    assert_eq!(p.create_swap(ALICE, 1, sha(b"secret"), BOB, 100, 50), Ok(110));
    let first = p.swaps(1).unwrap();
    let r = p.create_swap(BOB, 1, sha(b"other"), CAROL, 5, 10);
    assert_eq!(r, Err(Error::SwapAlreadyExists));
    assert_eq!(p.swaps(1).unwrap(), first);
    let a = p.balance(ALICE);
    assert_eq!((a.free, a.reserved), (950, 50));
    let b = p.balance(BOB);
    assert_eq!((b.free, b.reserved), (1000, 0));
}

#[test]
fn create_without_funds_fails() {
    let mut p = setup();
    let r = p.create_swap(CAROL, 1, sha(b"secret"), BOB, 100, 50);
    assert_eq!(r, Err(Error::InsufficientFunds));
    assert!(p.swaps(1).is_none());
}

#[test]
fn claim_with_secret_settles_to_receiver() {
    let mut p = setup();
    assert_eq!(p.create_swap(ALICE, 1, sha(b"secret"), BOB, 100, 50), Ok(110));
    p.set_height(110);
    assert_eq!(p.claim(BOB, 1, b"secret".to_vec()), Ok(()));
    let s = p.swaps(1).unwrap();
    assert!(s.claimed);
    assert!(!s.refunded);
    let a = p.balance(ALICE);
    assert_eq!((a.free, a.reserved), (950, 0));
    let b = p.balance(BOB);
    assert_eq!((b.free, b.reserved), (1050, 0));
    let again = p.claim(BOB, 1, b"secret".to_vec());
    assert_eq!(again, Err(Error::AlreadyClaimed));
}

#[test]
fn refund_after_timelock_releases_hold() {
    let mut p = setup();
    assert_eq!(p.create_swap(ALICE, 2, sha(b"secret"), BOB, 100, 50), Ok(110));
    p.set_height(111);
    assert_eq!(p.refund(ALICE, 2), Ok(()));
    let s = p.swaps(2).unwrap();
    assert!(s.refunded);
    assert!(!s.claimed);
    let a = p.balance(ALICE);
    assert_eq!((a.free, a.reserved), (1000, 0));
    let b = p.balance(BOB);
    assert_eq!((b.free, b.reserved), (1000, 0));
    let late_claim = p.claim(BOB, 2, b"secret".to_vec());
    assert_eq!(late_claim, Err(Error::TimelockExpired));
}

#[test]
fn claim_with_wrong_preimage_fails_unchanged() {
    let mut p = setup();
    assert_eq!(p.create_swap(ALICE, 3, sha(b"secret"), BOB, 100, 50), Ok(110));
    let before = p.swaps(3).unwrap();
    let r = p.claim(BOB, 3, b"wrong_preimage".to_vec());
    assert_eq!(r, Err(Error::InvalidPreimage));
    assert_eq!(p.swaps(3).unwrap(), before);
    let a = p.balance(ALICE);
    assert_eq!((a.free, a.reserved), (950, 50));
}

#[test]
fn boundary_claim_at_timelock_refund_after() {
    let mut p = setup();
    assert_eq!(p.create_swap(ALICE, 1, sha(b"s1"), BOB, 100, 10), Ok(110));
    assert_eq!(p.create_swap(ALICE, 2, sha(b"s2"), BOB, 100, 10), Ok(110));
    p.set_height(110);
    assert_eq!(p.refund(ALICE, 1), Err(Error::TimelockNotYetExpired));
    assert_eq!(p.claim(BOB, 1, b"s1".to_vec()), Ok(()));
    p.set_height(111);
    assert_eq!(p.claim(BOB, 2, b"s2".to_vec()), Err(Error::TimelockExpired));
    assert_eq!(p.refund(ALICE, 2), Ok(()));
}

#[test]
fn unknown_swap_is_reported() {
    let mut p = setup();
    assert_eq!(p.claim(BOB, 9, b"secret".to_vec()), Err(Error::UnknownSwap));
    assert_eq!(p.refund(ALICE, 9), Err(Error::UnknownSwap));
    assert!(p.swaps(9).is_none());
}

#[test]
fn wrong_parties_are_rejected() {
    let mut p = setup();
    assert_eq!(p.create_swap(ALICE, 1, sha(b"secret"), BOB, 100, 50), Ok(110));
    assert_eq!(p.claim(CAROL, 1, b"secret".to_vec()), Err(Error::NotReceiver));
    p.set_height(111);
    assert_eq!(p.refund(CAROL, 1), Err(Error::NotSender));
    assert_eq!(p.refund(BOB, 1), Err(Error::NotSender));
}

#[test]
fn refund_twice_fails() {
    let mut p = setup();
    assert_eq!(p.create_swap(ALICE, 1, sha(b"secret"), BOB, 100, 50), Ok(110));
    p.set_height(111);
    assert_eq!(p.refund(ALICE, 1), Ok(()));
    assert_eq!(p.refund(ALICE, 1), Err(Error::AlreadyRefunded));
    let a = p.balance(ALICE);
    assert_eq!((a.free, a.reserved), (1000, 0));
}

#[test]
fn refund_of_claimed_swap_fails() {
    let mut p = setup();
    assert_eq!(p.create_swap(ALICE, 1, sha(b"secret"), BOB, 100, 50), Ok(110));
    assert_eq!(p.claim(BOB, 1, b"secret".to_vec()), Ok(()));
    p.set_height(111);
    assert_eq!(p.refund(ALICE, 1), Err(Error::AlreadyClaimed));
    let b = p.balance(BOB);
    assert_eq!((b.free, b.reserved), (1050, 0));
}

#[test]
fn settlement_overflow_fails_and_keeps_hold() {
    let mut p = setup();
    assert!(p.deposit(CAROL, u64::MAX - 20));
    assert_eq!(p.create_swap(ALICE, 1, sha(b"secret"), CAROL, 100, 50), Ok(110));
    let r = p.claim(CAROL, 1, b"secret".to_vec());
    assert_eq!(r, Err(Error::TransferFailed));
    let s = p.swaps(1).unwrap();
    assert!(!s.claimed);
    let a = p.balance(ALICE);
    assert_eq!((a.free, a.reserved), (950, 50));
}

#[test]
fn sender_may_be_receiver() {
    let mut p = setup();
    assert_eq!(p.create_swap(ALICE, 1, sha(b"secret"), ALICE, 0, 700), Ok(10));
    assert_eq!(p.claim(ALICE, 1, b"secret".to_vec()), Ok(()));
    let a = p.balance(ALICE);
    assert_eq!((a.free, a.reserved), (1000, 0));
}

#[test]
fn zero_amount_swap_runs_through() {
    let mut p = setup();
    assert_eq!(p.create_swap(CAROL, 1, sha(b"secret"), BOB, 0, 0), Ok(10));
    assert_eq!(p.claim(BOB, 1, b"secret".to_vec()), Ok(()));
    let b = p.balance(BOB);
    assert_eq!((b.free, b.reserved), (1000, 0));
}

#[test]
fn deposit_overflow_is_refused() {
    let mut p = Pallet::new();
    assert!(p.deposit(ALICE, u64::MAX));
    assert!(!p.deposit(ALICE, 1));
    let a = p.balance(ALICE);
    assert_eq!((a.free, a.reserved), (u64::MAX, 0));
}

#[test]
fn one_event_per_success_none_on_failure() {
    let mut p = setup();
    assert_eq!(p.create_swap(ALICE, 1, sha(b"secret"), BOB, 100, 50), Ok(110));
    assert_eq!(
        p.create_swap(ALICE, 1, sha(b"secret"), BOB, 100, 50),
        Err(Error::SwapAlreadyExists)
    );
    assert_eq!(p.claim(BOB, 1, b"nope".to_vec()), Err(Error::InvalidPreimage));
    assert_eq!(p.claim(BOB, 1, b"secret".to_vec()), Ok(()));
    p.set_height(111);
    assert_eq!(p.refund(ALICE, 1), Err(Error::AlreadyClaimed));
    let events = p.events();
    assert_eq!(events.len(), 2);
    assert_eq!(
        events[0],
        Event::SwapCreated { swap_id: 1, sender: ALICE, receiver: BOB, amount: 50, timelock: 110 }
    );
    assert_eq!(events[1], Event::SwapClaimed { swap_id: 1, preimage: b"secret".to_vec() });
}

#[test]
fn refund_emits_its_event() {
    let mut p = setup();
    assert_eq!(p.create_swap(ALICE, 4, sha(b"secret"), BOB, 10, 25), Ok(20));
    p.set_height(21);
    assert_eq!(p.refund(ALICE, 4), Ok(()));
    let events = p.events();
    assert_eq!(events.len(), 2);
    assert_eq!(events[1], Event::SwapRefunded { swap_id: 4 });
}
