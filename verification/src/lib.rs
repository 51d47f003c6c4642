//! Verified core of an NFT linkdrop contract.
//!
//! A sender registers NFTs against a *drop*; claimants later receive them
//! through access-key-gated links. The hard part is the two-phase protocol
//! around the asynchronous asset transfer: registration validates and records
//! incoming tokens against a drop's expected shape and claim quota, and
//! resolution reconciles the drop's counters and token inventory with the
//! real-world outcome of a transfer that settles only after an unbounded
//! delay.
//!
//! The blockchain runtime (caller identity, promise outcomes, cross-contract
//! calls, logging) stays outside this core: handlers take the caller and the
//! settled outcome as plain values and return the compensating transfer they
//! decide on as a plain value, so the whole decision logic is verified.

pub mod drops;
pub mod ids;
pub mod nft;
pub mod store;
