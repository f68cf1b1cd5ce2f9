//! Notifications the engine records for its surroundings.
//!
//! Events are best-effort notifications, not part of the accounting: the
//! engine appends one per successful state transition and never reads them
//! back.

use vstd::prelude::*;

verus! {

/// A stream was created and its deposit taken into custody.
#[derive(Clone, Copy, Debug, PartialEq, Eq, Structural)]
pub struct StreamCreated {
    pub stream_id: u64,
    pub sender: u64,
    pub recipient: u64,
    pub token: u64,
    pub total_amount: i128,
    pub start_time: u64,
    pub end_time: u64,
}

/// A recipient claimed part of a stream's vested amount.
#[derive(Clone, Copy, Debug, PartialEq, Eq, Structural)]
pub struct StreamClaimed {
    pub stream_id: u64,
    pub recipient: u64,
    pub amount: i128,
}

/// A sender canceled a stream.
#[derive(Clone, Copy, Debug, PartialEq, Eq, Structural)]
pub struct StreamCanceled {
    pub stream_id: u64,
    pub sender: u64,
}

/// One notification, in the order the engine emitted them.
#[derive(Clone, Copy, Debug, PartialEq, Eq, Structural)]
pub enum StreamEvent {
    Created(StreamCreated),
    Claimed(StreamClaimed),
    Canceled(StreamCanceled),
}

} // verus!
