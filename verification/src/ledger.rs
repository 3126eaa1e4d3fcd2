//! The custody ledger: per-account free and reserved (held) balances, with
//! the hold / release / settle primitives that the swap registry issues.

use vstd::prelude::*;
use std::collections::HashMap;

verus! {

broadcast use vstd::std_specs::hash::group_hash_axioms;

/// The balance of one account: `free` may be spent or held, `reserved` is
/// earmarked for swaps in custody and cannot be spent.
#[derive(Clone, Copy, PartialEq, Eq, Structural, Debug)]
pub struct AccountData {
    pub free: u64,
    pub reserved: u64,
}

/// Free balance of `who` under `accounts`; an absent account holds nothing.
pub open spec fn free_of(accounts: Map<u64, AccountData>, who: u64) -> u64 {
    if accounts.contains_key(who) {
        accounts[who].free
    } else {
        0
    }
}

/// Reserved balance of `who` under `accounts`; an absent account holds nothing.
pub open spec fn reserved_of(accounts: Map<u64, AccountData>, who: u64) -> u64 {
    if accounts.contains_key(who) {
        accounts[who].reserved
    } else {
        0
    }
}

/// Every account's total balance fits in the balance type, so moving value
/// between the free and reserved sides of one account can never overflow.
pub open spec fn ledger_wf(accounts: Map<u64, AccountData>) -> bool {
    forall|a: u64| #[trigger]
        accounts.contains_key(a) ==> accounts[a].free + accounts[a].reserved <= u64::MAX
}

/// An in-memory custody ledger keyed by account identifier.
pub struct Ledger {
    accounts: HashMap<u64, AccountData>,
}

impl View for Ledger {
    type V = Map<u64, AccountData>;

    closed spec fn view(&self) -> Map<u64, AccountData> {
        self.accounts@
    }
}

impl Ledger {
    /// An empty ledger: no accounts, no balances.
    pub fn new() -> (r: Ledger)
        ensures
            r@ == Map::<u64, AccountData>::empty(),
            ledger_wf(r@),
    {
        Ledger { accounts: HashMap::new() }
    }

    /// The current balance of `who`, or zero balances if the account is absent.
    pub fn account(&self, who: u64) -> (r: AccountData)
        ensures
            r.free == free_of(self@, who),
            r.reserved == reserved_of(self@, who),
    {
        match self.accounts.get(&who) {
            Some(a) => *a,
            None => AccountData { free: 0, reserved: 0 },
        }
    }

    /// Add `amount` to the free balance of `who`. Fails, changing nothing,
    /// exactly when the account's total balance would overflow.
    pub fn deposit(&mut self, who: u64, amount: u64) -> (ok: bool)
        requires
            ledger_wf(old(self)@),
        ensures
            ledger_wf(final(self)@),
            ok <==> free_of(old(self)@, who) + reserved_of(old(self)@, who) + amount <= u64::MAX,
            ok ==> final(self)@ == old(self)@.insert(
                who,
                (AccountData {
                    free: (free_of(old(self)@, who) + amount) as u64,
                    reserved: reserved_of(old(self)@, who),
                }),
            ),
            !ok ==> final(self)@ == old(self)@,
    {
        let cur = self.account(who);
        if amount <= u64::MAX - cur.free - cur.reserved {
            self.accounts.insert(
                who,
                AccountData { free: cur.free + amount, reserved: cur.reserved },
            );
            true
        } else {
            false
        }
    }

    /// Earmark `amount` of the free balance of `who` as held. Fails, changing
    /// nothing, exactly when the free balance is insufficient.
    pub fn hold(&mut self, who: u64, amount: u64) -> (ok: bool)
        requires
            ledger_wf(old(self)@),
        ensures
            ledger_wf(final(self)@),
            ok <==> amount <= free_of(old(self)@, who),
            ok ==> final(self)@ == old(self)@.insert(
                who,
                (AccountData {
                    free: (free_of(old(self)@, who) - amount) as u64,
                    reserved: (reserved_of(old(self)@, who) + amount) as u64,
                }),
            ),
            !ok ==> final(self)@ == old(self)@,
    {
        let cur = self.account(who);
        if amount <= cur.free {
            self.accounts.insert(
                who,
                AccountData { free: cur.free - amount, reserved: cur.reserved + amount },
            );
            true
        } else {
            false
        }
    }

    /// Move held balance of `who` back to its free side: up to `amount`, as
    /// far as the held balance reaches. Returns how much was released.
    pub fn release_hold(&mut self, who: u64, amount: u64) -> (released: u64)
        requires
            ledger_wf(old(self)@),
        ensures
            ledger_wf(final(self)@),
            released == if amount <= reserved_of(old(self)@, who) {
                amount
            } else {
                reserved_of(old(self)@, who)
            },
            final(self)@ == old(self)@.insert(
                who,
                (AccountData {
                    free: (free_of(old(self)@, who) + released) as u64,
                    reserved: (reserved_of(old(self)@, who) - released) as u64,
                }),
            ),
    {
        let cur = self.account(who);
        let released = if amount <= cur.reserved {
            amount
        } else {
            cur.reserved
        };
        self.accounts.insert(
            who,
            AccountData { free: cur.free + released, reserved: cur.reserved - released },
        );
        released
    }

    /// Settle held balance: move `amount` from the held side of `from` to the
    /// free side of `to`, as one atomic step. Fails, changing nothing, exactly
    /// when the hold is insufficient or the total balance of `to` would
    /// overflow.
    pub fn transfer_held(&mut self, from: u64, to: u64, amount: u64) -> (ok: bool)
        requires
            ledger_wf(old(self)@),
        ensures
            ledger_wf(final(self)@),
            ok <==> amount <= reserved_of(old(self)@, from) && (from == to || free_of(
                old(self)@,
                to,
            ) + reserved_of(old(self)@, to) + amount <= u64::MAX),
            ok && from == to ==> final(self)@ == old(self)@.insert(
                from,
                (AccountData {
                    free: (free_of(old(self)@, from) + amount) as u64,
                    reserved: (reserved_of(old(self)@, from) - amount) as u64,
                }),
            ),
            ok && from != to ==> final(self)@ == old(self)@.insert(
                from,
                (AccountData {
                    free: free_of(old(self)@, from),
                    reserved: (reserved_of(old(self)@, from) - amount) as u64,
                }),
            ).insert(
                to,
                (AccountData {
                    free: (free_of(old(self)@, to) + amount) as u64,
                    reserved: reserved_of(old(self)@, to),
                }),
            ),
            !ok ==> final(self)@ == old(self)@,
    {
        let src = self.account(from);
        if amount > src.reserved {
            return false;
        }
        if from == to {
            self.accounts.insert(
                from,
                AccountData { free: src.free + amount, reserved: src.reserved - amount },
            );
            return true;
        }
        let dst = self.account(to);
        if amount <= u64::MAX - dst.free - dst.reserved {
            self.accounts.insert(
                from,
                AccountData { free: src.free, reserved: src.reserved - amount },
            );
            self.accounts.insert(
                to,
                AccountData { free: dst.free + amount, reserved: dst.reserved },
            );
            true
        } else {
            false
        }
    }
}

} // verus!
