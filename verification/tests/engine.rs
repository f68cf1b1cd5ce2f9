//! The engine's behaviour through its public operations.

use stellar_stream::contract::StellarStreamContract;
use stellar_stream::errors::StreamError;

const SENDER: u64 = 1;
const RECIPIENT: u64 = 2;
const OUTSIDER: u64 = 3;
const TOKEN: u64 = 7;

fn funded_engine(balance: i128) -> StellarStreamContract {
    let mut c = StellarStreamContract::new();
    c.mint(SENDER, TOKEN, balance).unwrap();
    c
}

fn engine_with_stream(total: i128, start: u64, end: u64) -> (StellarStreamContract, u64) {
    let mut c = funded_engine(total);
    let id = c
        .create_stream(SENDER, RECIPIENT, TOKEN, total, start, end, SENDER)
        .unwrap();
    (c, id)
}

#[test]
fn test_get_next_stream_id() {
    let mut c = StellarStreamContract::new();
    assert_eq!(c.get_next_stream_id(), 0);
    c.mint(SENDER, TOKEN, 5000).unwrap();
    c.create_stream(SENDER, RECIPIENT, TOKEN, 1000, 1000, 2000, SENDER)
        .unwrap();
    assert_eq!(c.get_next_stream_id(), 1);
    c.create_stream(SENDER, RECIPIENT, TOKEN, 1000, 1000, 2000, SENDER)
        .unwrap();
    assert_eq!(c.get_next_stream_id(), 2);
}

#[test]
fn test_claim_transfers_tokens_to_recipient() {
    let (mut c, id) = engine_with_stream(1000, 0, 1000);
    let claimed = c.claim(id, RECIPIENT, 500, RECIPIENT, 500).unwrap();
    assert_eq!(claimed, 500);
    assert_eq!(c.balance_of(RECIPIENT, TOKEN), 500);
}

#[test]
fn test_claim_partial_then_full() {
    let (mut c, id) = engine_with_stream(1000, 0, 1000);
    c.claim(id, RECIPIENT, 300, RECIPIENT, 500).unwrap();
    c.claim(id, RECIPIENT, 700, RECIPIENT, 1000).unwrap();
    assert_eq!(c.balance_of(RECIPIENT, TOKEN), 1000);
}

#[test]
fn test_claim_cannot_exceed_vested_amount() {
    let (mut c, id) = engine_with_stream(1000, 0, 1000);
    let r = c.claim(id, RECIPIENT, 500, RECIPIENT, 250);
    assert_eq!(r, Err(StreamError::ExceedsClaimable));
}

#[test]
fn test_claim_cannot_double_claim() {
    let (mut c, id) = engine_with_stream(1000, 0, 1000);
    c.claim(id, RECIPIENT, 500, RECIPIENT, 500).unwrap();
    let r = c.claim(id, RECIPIENT, 500, RECIPIENT, 500);
    assert_eq!(r, Err(StreamError::ExceedsClaimable));
}

#[test]
fn test_claim_fails_with_wrong_recipient() {
    let (mut c, id) = engine_with_stream(1000, 0, 1000);
    let r = c.claim(id, OUTSIDER, 500, OUTSIDER, 500);
    assert_eq!(r, Err(StreamError::RecipientMismatch));
}

#[test]
fn test_create_stream_fails_with_insufficient_sender_balance() {
    let mut c = funded_engine(100);
    let r = c.create_stream(SENDER, RECIPIENT, TOKEN, 1000, 0, 1000, SENDER);
    assert_eq!(r, Err(StreamError::InsufficientBalance));
}

#[test]
fn test_claimable_before_stream_start_returns_zero() {
    let (c, id) = engine_with_stream(1000, 1000, 2000);
    assert_eq!(c.claimable(id, 999).unwrap(), 0);
    assert_eq!(c.claimable(id, 1000).unwrap(), 0);
}

#[test]
fn test_claimable_during_stream_is_linear() {
    let (c, id) = engine_with_stream(1000, 0, 1000);
    assert_eq!(c.claimable(id, 250).unwrap(), 250);
    assert_eq!(c.claimable(id, 500).unwrap(), 500);
    assert_eq!(c.claimable(id, 750).unwrap(), 750);
}

#[test]
fn test_claimable_accounts_for_already_claimed() {
    let (mut c, id) = engine_with_stream(1000, 0, 1000);
    c.claim(id, RECIPIENT, 300, RECIPIENT, 500).unwrap();
    assert_eq!(c.claimable(id, 500).unwrap(), 200);
}

#[test]
fn test_claimable_after_stream_end_caps_at_total() {
    let (c, id) = engine_with_stream(1000, 0, 1000);
    assert_eq!(c.claimable(id, 1000).unwrap(), 1000);
    assert_eq!(c.claimable(id, 9999).unwrap(), 1000);
}

#[test]
fn test_cancel_refunds_unclaimed_to_sender() {
    let (mut c, id) = engine_with_stream(1000, 0, 1000);
    c.cancel(id, SENDER, SENDER, 500).unwrap();
    assert_eq!(c.balance_of(SENDER, TOKEN), 500);
}

#[test]
fn test_cancel_marks_stream_as_canceled() {
    let (mut c, id) = engine_with_stream(1000, 0, 1000);
    c.cancel(id, SENDER, SENDER, 0).unwrap();
    let stream = c.get_stream(id).unwrap();
    assert!(stream.canceled);
}

#[test]
fn test_cancel_idempotent_double_cancel_does_not_panic() {
    let (mut c, id) = engine_with_stream(1000, 0, 1000);
    c.cancel(id, SENDER, SENDER, 0).unwrap();
    c.cancel(id, SENDER, SENDER, 0).unwrap();
}

#[test]
fn test_cancel_recipient_cannot_claim_beyond_vested_at_cancel_time() {
    let (mut c, id) = engine_with_stream(1000, 0, 1000);
    c.cancel(id, SENDER, SENDER, 500).unwrap();
    c.claim(id, RECIPIENT, 500, RECIPIENT, 500).unwrap();
    assert_eq!(c.balance_of(RECIPIENT, TOKEN), 500);
}

#[test]
fn test_cancel_fails_with_wrong_sender() {
    let (mut c, id) = engine_with_stream(1000, 0, 1000);
    let r = c.cancel(id, OUTSIDER, OUTSIDER, 0);
    assert_eq!(r, Err(StreamError::SenderMismatch));
}

#[test]
fn test_claim_zero_amount_fails() {
    let (mut c, id) = engine_with_stream(1000, 0, 1000);
    let r = c.claim(id, RECIPIENT, 0, RECIPIENT, 500);
    assert_eq!(r, Err(StreamError::InvalidAmount));
}

#[test]
fn test_claim_before_stream_start_fails() {
    let (mut c, id) = engine_with_stream(1000, 1000, 2000);
    let r = c.claim(id, RECIPIENT, 1, RECIPIENT, 0);
    assert_eq!(r, Err(StreamError::ExceedsClaimable));
}

#[test]
fn test_claim_nonexistent_stream_fails() {
    let mut c = StellarStreamContract::new();
    let r = c.claim(999, RECIPIENT, 100, RECIPIENT, 0);
    assert_eq!(r, Err(StreamError::NotFound));
}

#[test]
fn test_create_stream_zero_amount_fails() {
    let mut c = StellarStreamContract::new();
    let r = c.create_stream(SENDER, RECIPIENT, TOKEN, 0, 0, 1000, SENDER);
    assert_eq!(r, Err(StreamError::InvalidAmount));
}

#[test]
fn test_create_stream_invalid_time_range_fails() {
    let mut c = funded_engine(1000);
    let r = c.create_stream(SENDER, RECIPIENT, TOKEN, 1000, 1000, 1000, SENDER);
    assert_eq!(r, Err(StreamError::InvalidTimeRange));
}

#[test]
fn create_stream_records_all_fields() {
    let (c, id) = engine_with_stream(1000, 100, 1100);
    let s = c.get_stream(id).unwrap();
    assert_eq!(s.sender, SENDER);
    assert_eq!(s.recipient, RECIPIENT);
    assert_eq!(s.token, TOKEN);
    assert_eq!(s.total_amount, 1000);
    assert_eq!(s.claimed_amount, 0);
    assert_eq!(s.start_time, 100);
    assert_eq!(s.end_time, 1100);
    assert!(!s.canceled);
}

#[test]
fn get_stream_unknown_id_fails() {
    let c = StellarStreamContract::new();
    assert_eq!(c.get_stream(1), Err(StreamError::NotFound));
}

#[test]
fn claimable_unknown_id_fails() {
    let c = StellarStreamContract::new();
    assert_eq!(c.claimable(5, 0), Err(StreamError::NotFound));
}

#[test]
fn cancel_unknown_id_fails() {
    let mut c = StellarStreamContract::new();
    assert_eq!(c.cancel(1, SENDER, SENDER, 0), Err(StreamError::NotFound));
}

#[test]
fn create_stream_requires_sender_identity() {
    let mut c = funded_engine(1000);
    let r = c.create_stream(SENDER, RECIPIENT, TOKEN, 1000, 0, 1000, OUTSIDER);
    assert_eq!(r, Err(StreamError::Unauthorized));
}

#[test]
fn claim_requires_recipient_identity() {
    let (mut c, id) = engine_with_stream(1000, 0, 1000);
    let r = c.claim(id, RECIPIENT, 100, SENDER, 500);
    assert_eq!(r, Err(StreamError::Unauthorized));
}

#[test]
fn cancel_requires_sender_identity() {
    let (mut c, id) = engine_with_stream(1000, 0, 1000);
    let r = c.cancel(id, SENDER, RECIPIENT, 0);
    assert_eq!(r, Err(StreamError::Unauthorized));
}

#[test]
fn mint_rejects_non_positive_amounts() {
    let mut c = StellarStreamContract::new();
    assert_eq!(c.mint(SENDER, TOKEN, 0), Err(StreamError::InvalidAmount));
    assert_eq!(c.mint(SENDER, TOKEN, -5), Err(StreamError::InvalidAmount));
}

#[test]
fn mint_rejects_overflowing_balance() {
    let mut c = StellarStreamContract::new();
    c.mint(SENDER, TOKEN, i128::MAX).unwrap();
    assert_eq!(c.mint(SENDER, TOKEN, 1), Err(StreamError::TransferFailed));
    assert_eq!(c.balance_of(SENDER, TOKEN), i128::MAX);
}
