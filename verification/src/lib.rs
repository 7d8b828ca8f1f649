//! A verified voting ledger.
//!
//! The crate keeps an append-only list of voteable options ("flavours") with
//! vote tallies, serialized into an externally owned byte buffer, and enforces
//! a one-vote-per-voter rule through a per-voter check record whose address is
//! derived deterministically from the voter's key.

pub mod codec;
pub mod error;
pub mod guard;
pub mod ledger;
pub mod process;

pub use error::VoteError;
pub use guard::{Address, VoterCheck};
pub use ledger::{Flavour, FlavourAccount};
pub use process::{process, Account, VoteInstruction};
