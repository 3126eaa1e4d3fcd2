//! The lifecycle laws of the escrow, proved over the transitions in
//! [`crate::model`]. The registry's operations are proved equal to those
//! transitions, so each law holds of the executable registry as well.

use vstd::prelude::*;
use crate::hashing::digest_of;
use crate::ledger::{free_of, reserved_of};
use crate::model::{
    Model, can_settle, claim_step, create_step, lemma_held_total_decompose,
    lemma_held_total_nonneg, refund_step, settled, wf,
};
use crate::swap::{Error, Swap};

verus! {

/// A successful creation leaves the new swap active — neither claimed nor
/// refunded, with the given commitment, parties and amount, and the timelock
/// at the creation height plus the offset — and the ledger holds exactly
/// `amount` more against the sender, taken from its free balance.
pub proof fn lemma_create_reports_active(
    m: Model,
    caller: u64,
    swap_id: u64,
    hash: [u8; 32],
    receiver: u64,
    timelock_offset: u64,
    amount: u64,
)
    requires
        wf(m),
        create_step(m, caller, swap_id, hash, receiver, timelock_offset, amount).1 is Ok,
    ensures
        ({
            let m2 = create_step(m, caller, swap_id, hash, receiver, timelock_offset, amount).0;
            let s = m2.swaps[swap_id];
            &&& m2.swaps.contains_key(swap_id)
            &&& s.claimed == false
            &&& s.refunded == false
            &&& s.hash == hash
            &&& s.sender == caller
            &&& s.receiver == receiver
            &&& s.amount == amount
            &&& s.timelock == (m.height + timelock_offset) as u64
            &&& reserved_of(m2.accounts, caller) == reserved_of(m.accounts, caller) + amount
            &&& free_of(m2.accounts, caller) == free_of(m.accounts, caller) - amount
            &&& m2.height == m.height
        }),
{
}

/// Idempotence of failure: after a creation succeeds under an identifier, a
/// second creation under the same identifier fails with `SwapAlreadyExists`,
/// whatever its other arguments, and changes nothing — the first record
/// included.
pub proof fn lemma_create_collision_fails(
    m: Model,
    caller: u64,
    swap_id: u64,
    hash: [u8; 32],
    receiver: u64,
    timelock_offset: u64,
    amount: u64,
    caller2: u64,
    hash2: [u8; 32],
    receiver2: u64,
    timelock_offset2: u64,
    amount2: u64,
)
    requires
        create_step(m, caller, swap_id, hash, receiver, timelock_offset, amount).1 is Ok,
    ensures
        ({
            let m1 = create_step(m, caller, swap_id, hash, receiver, timelock_offset, amount).0;
            let second = create_step(
                m1,
                caller2,
                swap_id,
                hash2,
                receiver2,
                timelock_offset2,
                amount2,
            );
            &&& second.1 == Err::<u64, Error>(Error::SwapAlreadyExists)
            &&& second.0 == m1
        }),
{
}

/// A claim against an absent identifier fails with `UnknownSwap` and changes
/// nothing; so does a refund.
pub proof fn lemma_unknown_swap(m: Model, caller: u64, swap_id: u64, preimage: Seq<u8>)
    requires
        !m.swaps.contains_key(swap_id),
    ensures
        claim_step(m, caller, swap_id, preimage) == (m, Err::<(), Error>(Error::UnknownSwap)),
        refund_step(m, caller, swap_id) == (m, Err::<(), Error>(Error::UnknownSwap)),
{
}

/// Custody is conserved: an active swap's amount is always covered by its
/// sender's reserved balance, so the settlement or release it is owed can
/// never want for funds.
pub proof fn lemma_active_swap_is_covered(m: Model, swap_id: u64)
    requires
        wf(m),
        m.swaps.contains_key(swap_id),
        !m.swaps[swap_id].claimed,
        !m.swaps[swap_id].refunded,
    ensures
        m.swaps[swap_id].amount <= reserved_of(m.accounts, m.swaps[swap_id].sender),
{
    lemma_held_total_decompose(m.swaps, m.swaps[swap_id].sender, swap_id);
    lemma_held_total_nonneg(m.swaps.remove(swap_id), m.swaps[swap_id].sender);
}

/// Claim succeeds exactly when the preimage hashes to the commitment, the
/// swap is unclaimed, the caller is the stored receiver, and the height is at
/// most the timelock. Each violated conjunct yields its specific error, the
/// first in checked order winning; a failed claim changes nothing. A
/// successful claim flips `claimed`, settles the held amount to the receiver,
/// and touches nothing else of the record. The one machine limit: the
/// receiver's total balance must have room for the amount.
pub proof fn lemma_claim_iff(m: Model, caller: u64, swap_id: u64, preimage: Seq<u8>)
    requires
        wf(m),
        m.swaps.contains_key(swap_id),
        m.swaps[swap_id].sender == m.swaps[swap_id].receiver || free_of(
            m.accounts,
            m.swaps[swap_id].receiver,
        ) + reserved_of(m.accounts, m.swaps[swap_id].receiver) + m.swaps[swap_id].amount
            <= u64::MAX,
    ensures
        ({
            let s = m.swaps[swap_id];
            let r = claim_step(m, caller, swap_id, preimage);
            &&& (r.1 is Ok <==> digest_of(preimage) == s.hash@ && !s.claimed && caller == s.receiver
                && m.height <= s.timelock)
            &&& (r.1 is Err ==> r.0 == m)
            &&& (r.1 == Err::<(), Error>(Error::InvalidPreimage) <==> digest_of(preimage)
                != s.hash@)
            &&& (r.1 == Err::<(), Error>(Error::AlreadyClaimed) <==> digest_of(preimage) == s.hash@
                && s.claimed)
            &&& (r.1 == Err::<(), Error>(Error::NotReceiver) <==> digest_of(preimage) == s.hash@
                && !s.claimed && caller != s.receiver)
            &&& (r.1 == Err::<(), Error>(Error::TimelockExpired) <==> digest_of(preimage)
                == s.hash@ && !s.claimed && caller == s.receiver && m.height > s.timelock)
            &&& (r.1 is Ok ==> r.0.swaps == m.swaps.insert(
                swap_id,
                (Swap {
                    hash: s.hash,
                    sender: s.sender,
                    receiver: s.receiver,
                    amount: s.amount,
                    timelock: s.timelock,
                    claimed: true,
                    refunded: s.refunded,
                }),
            ) && r.0.accounts == settled(m.accounts, s.sender, s.receiver, s.amount) && r.0.height
                == m.height)
        }),
{
    let s = m.swaps[swap_id];
    if !s.claimed && !s.refunded {
        lemma_active_swap_is_covered(m, swap_id);
    }
}

/// When every claim precondition holds but the ledger cannot settle — the
/// hold does not cover the amount, or the receiver's total balance would
/// overflow — the claim fails with `TransferFailed`, the swap stays active
/// and the hold stays in place.
pub proof fn lemma_claim_settlement_guard(m: Model, caller: u64, swap_id: u64, preimage: Seq<u8>)
    requires
        wf(m),
        m.swaps.contains_key(swap_id),
        digest_of(preimage) == m.swaps[swap_id].hash@,
        !m.swaps[swap_id].claimed,
        caller == m.swaps[swap_id].receiver,
        m.height <= m.swaps[swap_id].timelock,
        !can_settle(m.accounts, m.swaps[swap_id].sender, caller, m.swaps[swap_id].amount),
    ensures
        claim_step(m, caller, swap_id, preimage) == (m, Err::<(), Error>(Error::TransferFailed)),
{
}

/// Refund of an unclaimed swap succeeds exactly when the height is strictly
/// past the timelock, the swap is not yet refunded, and the caller is the
/// stored sender. Each violated conjunct yields its specific error, the first
/// in checked order winning; a failed refund changes nothing. A successful
/// refund flips `refunded` and releases the hold back to the sender's free
/// balance — exactly `amount` of it when the hold covers the amount.
pub proof fn lemma_refund_iff(m: Model, caller: u64, swap_id: u64)
    requires
        wf(m),
        m.swaps.contains_key(swap_id),
        !m.swaps[swap_id].claimed,
    ensures
        ({
            let s = m.swaps[swap_id];
            let r = refund_step(m, caller, swap_id);
            &&& (r.1 is Ok <==> m.height > s.timelock && !s.refunded && caller == s.sender)
            &&& (r.1 is Err ==> r.0 == m)
            &&& (r.1 == Err::<(), Error>(Error::TimelockNotYetExpired) <==> m.height <= s.timelock)
            &&& (r.1 == Err::<(), Error>(Error::AlreadyRefunded) <==> m.height > s.timelock
                && s.refunded)
            &&& (r.1 == Err::<(), Error>(Error::NotSender) <==> m.height > s.timelock && !s.refunded
                && caller != s.sender)
            &&& (r.1 is Ok ==> r.0.swaps == m.swaps.insert(
                swap_id,
                (Swap {
                    hash: s.hash,
                    sender: s.sender,
                    receiver: s.receiver,
                    amount: s.amount,
                    timelock: s.timelock,
                    claimed: s.claimed,
                    refunded: true,
                }),
            ) && r.0.height == m.height)
            &&& (r.1 is Ok ==> free_of(r.0.accounts, s.sender) == free_of(m.accounts, s.sender)
                + s.amount && reserved_of(r.0.accounts, s.sender) == reserved_of(
                m.accounts,
                s.sender,
            ) - s.amount)
        }),
{
    let s = m.swaps[swap_id];
    if !s.refunded {
        lemma_active_swap_is_covered(m, swap_id);
    }
}

/// Mutual exclusivity, first direction: once a swap is claimed, refund always
/// fails and changes nothing; past the timelock the failure is
/// `AlreadyClaimed`, whoever calls.
pub proof fn lemma_claimed_swap_never_refunds(m: Model, caller: u64, swap_id: u64)
    requires
        wf(m),
        m.swaps.contains_key(swap_id),
        m.swaps[swap_id].claimed,
    ensures
        ({
            let r = refund_step(m, caller, swap_id);
            &&& r.1 is Err
            &&& r.0 == m
            &&& (m.height > m.swaps[swap_id].timelock ==> r.1 == Err::<(), Error>(
                Error::AlreadyClaimed,
            ))
        }),
{
}

/// Mutual exclusivity, second direction: once a swap is refunded, claim
/// always fails and changes nothing. A refund only ever succeeded strictly
/// after the timelock and the height never decreases, so a claim with the
/// matching preimage by the stored receiver fails with `TimelockExpired`.
pub proof fn lemma_refunded_swap_never_claims(m: Model, caller: u64, swap_id: u64, preimage: Seq<u8>)
    requires
        wf(m),
        m.swaps.contains_key(swap_id),
        m.swaps[swap_id].refunded,
    ensures
        ({
            let s = m.swaps[swap_id];
            let r = claim_step(m, caller, swap_id, preimage);
            &&& r.1 is Err
            &&& r.0 == m
            &&& (digest_of(preimage) == s.hash@ && caller == s.receiver ==> r.1 == Err::<(), Error>(
                Error::TimelockExpired,
            ))
        }),
{
}

/// The boundary of the claim and refund windows: at `height == timelock` a
/// matching claim by the receiver succeeds and a refund is still refused; one
/// block later the same claim fails with `TimelockExpired` and the sender's
/// refund succeeds.
pub proof fn lemma_timelock_boundary(m: Model, swap_id: u64, preimage: Seq<u8>)
    requires
        wf(m),
        m.swaps.contains_key(swap_id),
        !m.swaps[swap_id].claimed,
        !m.swaps[swap_id].refunded,
        digest_of(preimage) == m.swaps[swap_id].hash@,
        m.swaps[swap_id].sender == m.swaps[swap_id].receiver || free_of(
            m.accounts,
            m.swaps[swap_id].receiver,
        ) + reserved_of(m.accounts, m.swaps[swap_id].receiver) + m.swaps[swap_id].amount
            <= u64::MAX,
    ensures
        ({
            let s = m.swaps[swap_id];
            &&& (m.height == s.timelock ==> claim_step(m, s.receiver, swap_id, preimage).1 is Ok)
            &&& (m.height == s.timelock ==> refund_step(m, s.sender, swap_id).1 == Err::<(), Error>(
                Error::TimelockNotYetExpired,
            ))
            &&& (m.height == s.timelock + 1 ==> claim_step(m, s.receiver, swap_id, preimage).1
                == Err::<(), Error>(Error::TimelockExpired))
            &&& (m.height == s.timelock + 1 ==> refund_step(m, s.sender, swap_id).1 is Ok)
        }),
{
    lemma_active_swap_is_covered(m, swap_id);
}

} // verus!
