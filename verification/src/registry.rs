//! The swap registry and state machine: the three transitions over the
//! records, the custody ledger and the block-height clock, each proved equal
//! to its transition in [`crate::model`].

use vstd::prelude::*;
use std::collections::HashMap;
use crate::hashing::{bytes32_eq, sha2_256};
use crate::ledger::{AccountData, Ledger, free_of, reserved_of};
use crate::model::{
    Model, claim_step, create_step, held_total, lemma_held_total_decompose,
    lemma_held_total_insert, lemma_held_total_nonneg, refund_step, swap_wf, wf,
};
use crate::swap::{Error, Event, Swap};

verus! {

broadcast use vstd::std_specs::hash::group_hash_axioms;

/// The escrow registry. It owns the swap records, the custody ledger and the
/// clock, and appends one notification per successful operation.
pub struct Pallet {
    swaps: HashMap<u64, Swap>,
    ledger: Ledger,
    height: u64,
    events: Vec<Event>,
}

impl View for Pallet {
    type V = Model;

    closed spec fn view(&self) -> Model {
        Model { swaps: self.swaps@, accounts: self.ledger@, height: self.height }
    }
}

impl Pallet {
    /// The notifications emitted so far, oldest first.
    pub closed spec fn event_log(&self) -> Seq<Event> {
        self.events@
    }

    /// An empty registry at height zero.
    pub fn new() -> (r: Pallet)
        ensures
            wf(r@),
            r@.swaps == Map::<u64, Swap>::empty(),
            r@.accounts == Map::<u64, AccountData>::empty(),
            r@.height == 0,
            r.event_log() == Seq::<Event>::empty(),
    {
        Pallet { swaps: HashMap::new(), ledger: Ledger::new(), height: 0, events: Vec::new() }
    }

    /// Advance the clock. The host's block height never decreases.
    pub fn set_height(&mut self, height: u64)
        requires
            wf(old(self)@),
            old(self)@.height <= height,
        ensures
            wf(final(self)@),
            final(self)@ == (Model { height, ..old(self)@ }),
            final(self).event_log() == old(self).event_log(),
    {
        self.height = height;
    }

    /// The current block height.
    pub fn height(&self) -> (r: u64)
        ensures
            r == self@.height,
    {
        self.height
    }

    /// Add `amount` to the free balance of `who`; fails, changing nothing,
    /// exactly when the account's total balance would overflow.
    pub fn deposit(&mut self, who: u64, amount: u64) -> (ok: bool)
        requires
            wf(old(self)@),
        ensures
            wf(final(self)@),
            ok <==> free_of(old(self)@.accounts, who) + reserved_of(old(self)@.accounts, who)
                + amount <= u64::MAX,
            ok ==> final(self)@ == (Model {
                accounts: old(self)@.accounts.insert(
                    who,
                    (AccountData {
                        free: (free_of(old(self)@.accounts, who) + amount) as u64,
                        reserved: reserved_of(old(self)@.accounts, who),
                    }),
                ),
                ..old(self)@
            }),
            !ok ==> final(self)@ == old(self)@,
            final(self).event_log() == old(self).event_log(),
    {
        self.ledger.deposit(who, amount)
    }

    /// The free and reserved balance of `who`.
    pub fn balance(&self, who: u64) -> (r: AccountData)
        ensures
            r.free == free_of(self@.accounts, who),
            r.reserved == reserved_of(self@.accounts, who),
    {
        self.ledger.account(who)
    }

    /// The full record under `swap_id`, or `None` if no swap exists there.
    /// Read-only: no precondition checks, no side effects.
    pub fn swaps(&self, swap_id: u64) -> (r: Option<Swap>)
        ensures
            match r {
                Some(s) => self@.swaps.contains_key(swap_id) && s == self@.swaps[swap_id],
                None => !self@.swaps.contains_key(swap_id),
            },
    {
        match self.swaps.get(&swap_id) {
            Some(s) => Some(*s),
            None => None,
        }
    }

    /// The notifications emitted so far.
    pub fn events(&self) -> (r: &Vec<Event>)
        ensures
            r@ == self.event_log(),
    {
        &self.events
    }

    /// Open a swap: lock `amount` of the caller's free balance against the
    /// commitment `hash`, in favour of `receiver`, claimable up to height
    /// `current height + timelock_offset`. Returns the absolute timelock.
    pub fn create_swap(
        &mut self,
        caller: u64,
        swap_id: u64,
        hash: [u8; 32],
        receiver: u64,
        timelock_offset: u64,
        amount: u64,
    ) -> (r: Result<u64, Error>)
        requires
            wf(old(self)@),
            old(self)@.height + timelock_offset <= u64::MAX,
        ensures
            wf(final(self)@),
            (final(self)@, r) == create_step(
                old(self)@,
                caller,
                swap_id,
                hash,
                receiver,
                timelock_offset,
                amount,
            ),
            r is Ok ==> final(self).event_log() == old(self).event_log().push(
                (Event::SwapCreated {
                    swap_id,
                    sender: caller,
                    receiver,
                    amount,
                    timelock: (old(self)@.height + timelock_offset) as u64,
                }),
            ),
            r is Err ==> final(self).event_log() == old(self).event_log(),
    {
        if self.swaps.contains_key(&swap_id) {
            return Err(Error::SwapAlreadyExists);
        }
        if !self.ledger.hold(caller, amount) {
            return Err(Error::InsufficientFunds);
        }
        let timelock = self.height + timelock_offset;
        let record = Swap {
            hash,
            sender: caller,
            receiver,
            amount,
            timelock,
            claimed: false,
            refunded: false,
        };
        self.swaps.insert(swap_id, record);
        self.events.push(Event::SwapCreated { swap_id, sender: caller, receiver, amount, timelock });
        proof {
            assert forall|id: u64| #[trigger] self.swaps@.contains_key(id) implies swap_wf(
                self.swaps@[id],
                self.height,
            ) by {
                if id != swap_id {
                    assert(old(self)@.swaps.contains_key(id));
                }
            }
            assert forall|a: u64|
                reserved_of(self.ledger@, a) == #[trigger] held_total(self.swaps@, a) by {
                lemma_held_total_insert(old(self)@.swaps, a, swap_id, record);
                assert(old(self)@.swaps.remove(swap_id) =~= old(self)@.swaps);
                assert(reserved_of(old(self)@.accounts, a) == held_total(old(self)@.swaps, a));
            }
        }
        Ok(timelock)
    }

    /// Claim a swap by revealing the preimage of its commitment. Legal up to
    /// and including the timelock height, for the stored receiver only; on
    /// success the held amount settles to the receiver and the revealed
    /// preimage is published in the notification.
    pub fn claim(&mut self, caller: u64, swap_id: u64, preimage: Vec<u8>) -> (r: Result<(), Error>)
        requires
            wf(old(self)@),
        ensures
            wf(final(self)@),
            (final(self)@, r) == claim_step(old(self)@, caller, swap_id, preimage@),
            r is Ok ==> final(self).event_log() == old(self).event_log().push(
                (Event::SwapClaimed { swap_id, preimage }),
            ),
            r is Err ==> final(self).event_log() == old(self).event_log(),
    {
        let swap = match self.swaps.get(&swap_id) {
            Some(s) => *s,
            None => {
                return Err(Error::UnknownSwap);
            },
        };
        let digest = sha2_256(&preimage);
        if !bytes32_eq(&digest, &swap.hash) {
            return Err(Error::InvalidPreimage);
        }
        if swap.claimed {
            return Err(Error::AlreadyClaimed);
        }
        if caller != swap.receiver {
            return Err(Error::NotReceiver);
        }
        if self.height > swap.timelock {
            return Err(Error::TimelockExpired);
        }
        if !self.ledger.transfer_held(swap.sender, caller, swap.amount) {
            return Err(Error::TransferFailed);
        }
        let record = Swap {
            hash: swap.hash,
            sender: swap.sender,
            receiver: swap.receiver,
            amount: swap.amount,
            timelock: swap.timelock,
            claimed: true,
            refunded: swap.refunded,
        };
        self.swaps.insert(swap_id, record);
        self.events.push(Event::SwapClaimed { swap_id, preimage });
        proof {
            assert forall|id: u64| #[trigger] self.swaps@.contains_key(id) implies swap_wf(
                self.swaps@[id],
                self.height,
            ) by {
                if id != swap_id {
                    assert(old(self)@.swaps.contains_key(id));
                }
            }
            assert forall|a: u64|
                reserved_of(self.ledger@, a) == #[trigger] held_total(self.swaps@, a) by {
                lemma_held_total_insert(old(self)@.swaps, a, swap_id, record);
                lemma_held_total_decompose(old(self)@.swaps, a, swap_id);
                assert(reserved_of(old(self)@.accounts, a) == held_total(old(self)@.swaps, a));
            }
        }
        Ok(())
    }

    /// Refund a swap that passed its timelock unclaimed: release the hold
    /// back to the sender. Legal strictly after the timelock height, for the
    /// stored sender only.
    pub fn refund(&mut self, caller: u64, swap_id: u64) -> (r: Result<(), Error>)
        requires
            wf(old(self)@),
        ensures
            wf(final(self)@),
            (final(self)@, r) == refund_step(old(self)@, caller, swap_id),
            r is Ok ==> final(self).event_log() == old(self).event_log().push(
                (Event::SwapRefunded { swap_id }),
            ),
            r is Err ==> final(self).event_log() == old(self).event_log(),
    {
        let swap = match self.swaps.get(&swap_id) {
            Some(s) => *s,
            None => {
                return Err(Error::UnknownSwap);
            },
        };
        if self.height <= swap.timelock {
            return Err(Error::TimelockNotYetExpired);
        }
        if swap.refunded {
            return Err(Error::AlreadyRefunded);
        }
        if swap.claimed {
            return Err(Error::AlreadyClaimed);
        }
        if caller != swap.sender {
            return Err(Error::NotSender);
        }
        proof {
            // The conservation invariant puts at least this swap's amount in
            // the sender's hold, so the release is the full amount.
            lemma_held_total_decompose(old(self)@.swaps, swap.sender, swap_id);
            lemma_held_total_nonneg(old(self)@.swaps.remove(swap_id), swap.sender);
        }
        self.ledger.release_hold(swap.sender, swap.amount);
        let record = Swap {
            hash: swap.hash,
            sender: swap.sender,
            receiver: swap.receiver,
            amount: swap.amount,
            timelock: swap.timelock,
            claimed: swap.claimed,
            refunded: true,
        };
        self.swaps.insert(swap_id, record);
        self.events.push(Event::SwapRefunded { swap_id });
        proof {
            assert forall|id: u64| #[trigger] self.swaps@.contains_key(id) implies swap_wf(
                self.swaps@[id],
                self.height,
            ) by {
                if id != swap_id {
                    assert(old(self)@.swaps.contains_key(id));
                }
            }
            assert forall|a: u64|
                reserved_of(self.ledger@, a) == #[trigger] held_total(self.swaps@, a) by {
                lemma_held_total_insert(old(self)@.swaps, a, swap_id, record);
                lemma_held_total_decompose(old(self)@.swaps, a, swap_id);
                assert(reserved_of(old(self)@.accounts, a) == held_total(old(self)@.swaps, a));
            }
        }
        Ok(())
    }
}

} // verus!
