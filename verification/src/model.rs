//! The mathematical model of the escrow: its state as maps, the
//! well-formedness invariant, and the three transitions as spec functions.
//! Each executable operation of the registry is proved to equal its
//! transition here, and the laws about the lifecycle are proved over these.

use vstd::prelude::*;
use crate::hashing::digest_of;
use crate::ledger::{AccountData, free_of, ledger_wf, reserved_of};
use crate::swap::{Error, Swap};

verus! {

/// The registry's abstract state: the swap records, the custody ledger, and
/// the current block height.
pub struct Model {
    pub swaps: Map<u64, Swap>,
    pub accounts: Map<u64, AccountData>,
    pub height: u64,
}

/// What holds of every record at all times: a swap is never both claimed and
/// refunded, and a refunded swap's timelock lies strictly below the current
/// height (a refund only ever succeeded strictly after the timelock, and the
/// height never decreases).
pub open spec fn swap_wf(s: Swap, height: u64) -> bool {
    &&& !(s.claimed && s.refunded)
    &&& s.refunded ==> s.timelock < height
}

/// What one record keeps in custody against account `a`: its amount while
/// the swap is active and `a` is its sender, nothing otherwise.
pub open spec fn held_amount(s: Swap, a: u64) -> int {
    if s.sender == a && !s.claimed && !s.refunded {
        s.amount as int
    } else {
        0
    }
}

/// The total amount the records in `swaps` keep in custody against `a`.
pub open spec fn held_total(swaps: Map<u64, Swap>, a: u64) -> int
    decreases swaps.dom().len(),
        when swaps.dom().finite()
{
    if swaps.dom().finite() && swaps.dom().len() > 0 {
        let id = swaps.dom().choose();
        held_amount(swaps[id], a) + held_total(swaps.remove(id), a)
    } else {
        0
    }
}

/// No record's custody contribution is negative, so neither is the total.
pub proof fn lemma_held_total_nonneg(swaps: Map<u64, Swap>, a: u64)
    requires
        swaps.dom().finite(),
    ensures
        held_total(swaps, a) >= 0,
    decreases swaps.dom().len(),
{
    if swaps.dom().len() > 0 {
        let id = swaps.dom().choose();
        lemma_held_total_nonneg(swaps.remove(id), a);
    }
}

/// The custody total splits off any one record: the record's contribution
/// plus the total of the rest.
pub proof fn lemma_held_total_decompose(swaps: Map<u64, Swap>, a: u64, id: u64)
    requires
        swaps.dom().finite(),
        swaps.dom().contains(id),
    ensures
        held_total(swaps, a) == held_amount(swaps[id], a) + held_total(swaps.remove(id), a),
    decreases swaps.dom().len(),
{
    let c = swaps.dom().choose();
    if c != id {
        let without_c = swaps.remove(c);
        let without_id = swaps.remove(id);
        lemma_held_total_decompose(without_c, a, id);
        lemma_held_total_decompose(without_id, a, c);
        assert(without_c.remove(id) =~= without_id.remove(c));
    }
}

/// Inserting a record under `id` replaces whatever contribution stood under
/// `id` by the new record's contribution.
pub proof fn lemma_held_total_insert(swaps: Map<u64, Swap>, a: u64, id: u64, s: Swap)
    requires
        swaps.dom().finite(),
    ensures
        held_total(swaps.insert(id, s), a) == held_total(swaps.remove(id), a) + held_amount(s, a),
{
    let inserted = swaps.insert(id, s);
    lemma_held_total_decompose(inserted, a, id);
    assert(inserted.remove(id) =~= swaps.remove(id));
}

/// Well-formedness of the whole state. Besides the per-record invariant it
/// states conservation of custody: every account's reserved balance is
/// exactly what the active swaps it funded keep in custody, so funds are
/// neither lost nor double-spent.
pub open spec fn wf(m: Model) -> bool {
    &&& ledger_wf(m.accounts)
    &&& m.swaps.dom().finite()
    &&& forall|id: u64| #[trigger] m.swaps.contains_key(id) ==> swap_wf(m.swaps[id], m.height)
    &&& forall|a: u64| reserved_of(m.accounts, a) == #[trigger] held_total(m.swaps, a)
}

/// The `create_swap` transition. The new record's timelock is the current
/// height plus the caller's offset; the amount moves from the sender's free
/// balance to its held balance.
pub open spec fn create_step(
    m: Model,
    caller: u64,
    swap_id: u64,
    hash: [u8; 32],
    receiver: u64,
    timelock_offset: u64,
    amount: u64,
) -> (Model, Result<u64, Error>) {
    if m.swaps.contains_key(swap_id) {
        (m, Err(Error::SwapAlreadyExists))
    } else if free_of(m.accounts, caller) < amount {
        (m, Err(Error::InsufficientFunds))
    } else {
        let timelock = (m.height + timelock_offset) as u64;
        let record = (Swap {
            hash,
            sender: caller,
            receiver,
            amount,
            timelock,
            claimed: false,
            refunded: false,
        });
        let held = (AccountData {
            free: (free_of(m.accounts, caller) - amount) as u64,
            reserved: (reserved_of(m.accounts, caller) + amount) as u64,
        });
        (
            (Model {
                swaps: m.swaps.insert(swap_id, record),
                accounts: m.accounts.insert(caller, held),
                height: m.height,
            }),
            Ok(timelock),
        )
    }
}

/// Whether the ledger can settle `amount` from the hold of `from` into the
/// free balance of `to`: the hold must cover it, and the receiving account's
/// total balance must not overflow.
pub open spec fn can_settle(accounts: Map<u64, AccountData>, from: u64, to: u64, amount: u64) -> bool {
    &&& amount <= reserved_of(accounts, from)
    &&& from == to || free_of(accounts, to) + reserved_of(accounts, to) + amount <= u64::MAX
}

/// The ledger after settling `amount` from the hold of `from` to the free
/// balance of `to`.
pub open spec fn settled(accounts: Map<u64, AccountData>, from: u64, to: u64, amount: u64) -> Map<
    u64,
    AccountData,
> {
    if from == to {
        accounts.insert(
            from,
            (AccountData {
                free: (free_of(accounts, from) + amount) as u64,
                reserved: (reserved_of(accounts, from) - amount) as u64,
            }),
        )
    } else {
        accounts.insert(
            from,
            (AccountData {
                free: free_of(accounts, from),
                reserved: (reserved_of(accounts, from) - amount) as u64,
            }),
        ).insert(
            to,
            (AccountData {
                free: (free_of(accounts, to) + amount) as u64,
                reserved: reserved_of(accounts, to),
            }),
        )
    }
}

/// The `claim` transition: the preconditions in their checked order (the
/// first failure wins and nothing changes), then the atomic settlement to the
/// receiver and the flip of `claimed`.
pub open spec fn claim_step(m: Model, caller: u64, swap_id: u64, preimage: Seq<u8>) -> (
    Model,
    Result<(), Error>,
) {
    if !m.swaps.contains_key(swap_id) {
        (m, Err(Error::UnknownSwap))
    } else {
        let s = m.swaps[swap_id];
        if digest_of(preimage) != s.hash@ {
            (m, Err(Error::InvalidPreimage))
        } else if s.claimed {
            (m, Err(Error::AlreadyClaimed))
        } else if caller != s.receiver {
            (m, Err(Error::NotReceiver))
        } else if m.height > s.timelock {
            (m, Err(Error::TimelockExpired))
        } else if !can_settle(m.accounts, s.sender, caller, s.amount) {
            (m, Err(Error::TransferFailed))
        } else {
            let settled_record = (Swap {
                hash: s.hash,
                sender: s.sender,
                receiver: s.receiver,
                amount: s.amount,
                timelock: s.timelock,
                claimed: true,
                refunded: s.refunded,
            });
            (
                (Model {
                    swaps: m.swaps.insert(swap_id, settled_record),
                    accounts: settled(m.accounts, s.sender, caller, s.amount),
                    height: m.height,
                }),
                Ok(()),
            )
        }
    }
}

/// The `refund` transition: the preconditions in their checked order, then
/// the release of the hold back to the sender (up to the held balance; no
/// transfer, the funds never left the sender's account) and the flip of
/// `refunded`.
pub open spec fn refund_step(m: Model, caller: u64, swap_id: u64) -> (Model, Result<(), Error>) {
    if !m.swaps.contains_key(swap_id) {
        (m, Err(Error::UnknownSwap))
    } else {
        let s = m.swaps[swap_id];
        if m.height <= s.timelock {
            (m, Err(Error::TimelockNotYetExpired))
        } else if s.refunded {
            (m, Err(Error::AlreadyRefunded))
        } else if s.claimed {
            (m, Err(Error::AlreadyClaimed))
        } else if caller != s.sender {
            (m, Err(Error::NotSender))
        } else {
            let released = if s.amount <= reserved_of(m.accounts, s.sender) {
                s.amount
            } else {
                reserved_of(m.accounts, s.sender)
            };
            let released_account = (AccountData {
                free: (free_of(m.accounts, s.sender) + released) as u64,
                reserved: (reserved_of(m.accounts, s.sender) - released) as u64,
            });
            let refunded_record = (Swap {
                hash: s.hash,
                sender: s.sender,
                receiver: s.receiver,
                amount: s.amount,
                timelock: s.timelock,
                claimed: s.claimed,
                refunded: true,
            });
            (
                (Model {
                    swaps: m.swaps.insert(swap_id, refunded_record),
                    accounts: m.accounts.insert(s.sender, released_account),
                    height: m.height,
                }),
                Ok(()),
            )
        }
    }
}

} // verus!
