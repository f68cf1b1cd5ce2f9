//! Error kinds of the escrow engine.

use vstd::prelude::*;

verus! {

/// Why an operation on the escrow engine was refused.
///
/// Every failure is terminal for the call that raised it: the engine
/// mutates nothing when it returns one of these.
#[derive(Clone, Copy, Debug, PartialEq, Eq, Structural)]
pub enum StreamError {
    /// An amount that must be positive was zero or negative, or would not fit.
    InvalidAmount,
    /// A stream's end time did not lie strictly after its start time.
    InvalidTimeRange,
    /// The sender's balance did not cover the deposit of a new stream.
    InsufficientBalance,
    /// No stream is recorded under the given identifier.
    NotFound,
    /// The recipient named in a claim is not the stream's recipient.
    RecipientMismatch,
    /// The sender named in a cancellation is not the stream's sender.
    SenderMismatch,
    /// A claim asked for more than is vested and still unclaimed.
    ExceedsClaimable,
    /// The caller could not prove the identity the operation demands.
    Unauthorized,
    /// The token ledger refused the transfer; nothing was moved.
    TransferFailed,
}

} // verus!
