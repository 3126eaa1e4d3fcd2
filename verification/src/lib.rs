//! A hashed-timelock-contract (HTLC) escrow: a sender locks funds against a
//! SHA-256 commitment; the designated receiver may claim them by revealing the
//! preimage up to the timelock height, and the sender may reclaim them once the
//! timelock has passed unclaimed.

pub mod hashing;
pub mod laws;
pub mod ledger;
pub mod model;
pub mod registry;
pub mod swap;
