//! A token-vesting escrow engine.
//!
//! The engine custodies a deposited token balance on behalf of a sender and
//! releases it to a recipient linearly over time, supporting early
//! cancellation with fair settlement: the unvested remainder is refunded to
//! the sender, while the vested-but-unclaimed remainder stays claimable by
//! the recipient against the truncated schedule.
//!
//! The persistent store, the identity verifier, the token ledger and the
//! clock are collaborators of the engine, not part of it; they are modelled
//! here as plain data (an id-indexed table, a caller id passed per call, an
//! in-memory ledger, a timestamp passed per call) so that every state
//! transition of the accounting core is verified.

pub mod contract;
pub mod errors;
pub mod events;
pub mod ledger;
pub mod registry;
pub mod stream;
