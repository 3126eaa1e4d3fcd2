//! The swap record, the error taxonomy, and the notifications the registry
//! emits.

use vstd::prelude::*;

verus! {

/// One escrow entry. `hash` is the SHA-256 commitment the claim preimage is
/// checked against; `timelock` is the absolute block height up to which (and
/// including which) a claim is legal, and strictly after which a refund is.
/// `claimed` and `refunded` each flip to true at most once; never both.
#[derive(Clone, Copy, PartialEq, Debug)]
pub struct Swap {
    pub hash: [u8; 32],
    pub sender: u64,
    pub receiver: u64,
    pub amount: u64,
    pub timelock: u64,
    pub claimed: bool,
    pub refunded: bool,
}

/// Why an operation was rejected. Every rejection is detected before any
/// state is written.
#[derive(Clone, Copy, PartialEq, Eq, Structural, Debug)]
pub enum Error {
    /// `create_swap` was given an identifier that is already taken.
    SwapAlreadyExists,
    /// `claim` or `refund` named an identifier with no record.
    UnknownSwap,
    /// The preimage offered to `claim` does not hash to the commitment.
    InvalidPreimage,
    /// The swap is already settled in the receiver's favour.
    AlreadyClaimed,
    /// The swap is already settled back to the sender.
    AlreadyRefunded,
    /// `claim` was called by an account other than the stored receiver.
    NotReceiver,
    /// `refund` was called by an account other than the stored sender.
    NotSender,
    /// `claim` came strictly after the timelock height.
    TimelockExpired,
    /// `refund` came at or before the timelock height.
    TimelockNotYetExpired,
    /// The ledger could not place the creation hold on the sender.
    InsufficientFunds,
    /// The ledger could not settle the held amount to the receiver.
    TransferFailed,
}

/// A notification of one successful operation; exactly one is appended per
/// success, none on failure.
#[derive(PartialEq, Debug)]
pub enum Event {
    SwapCreated { swap_id: u64, sender: u64, receiver: u64, amount: u64, timelock: u64 },
    SwapClaimed { swap_id: u64, preimage: Vec<u8> },
    SwapRefunded { swap_id: u64 },
}

} // verus!
