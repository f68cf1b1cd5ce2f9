//! End-to-end scenarios: settlement, conservation and notifications.

use stellar_stream::contract::StellarStreamContract;
use stellar_stream::errors::StreamError;
use stellar_stream::events::{StreamCanceled, StreamClaimed, StreamCreated, StreamEvent};

const SENDER: u64 = 1;
const RECIPIENT: u64 = 2;
const TOKEN: u64 = 7;

fn engine_with_stream(total: i128, start: u64, end: u64) -> (StellarStreamContract, u64) {
    let mut c = StellarStreamContract::new();
    c.mint(SENDER, TOKEN, total).unwrap();
    let id = c
        .create_stream(SENDER, RECIPIENT, TOKEN, total, start, end, SENDER)
        .unwrap();
    (c, id)
}

#[test]
fn partial_claim_reduces_claimable() {
    let (mut c, id) = engine_with_stream(1000, 0, 1000);
    assert_eq!(c.claimable(id, 500).unwrap(), 500);
    let claimed = c.claim(id, RECIPIENT, 300, RECIPIENT, 500).unwrap();
    assert_eq!(claimed, 300);
    assert_eq!(c.get_stream(id).unwrap().claimed_amount, 300);
    assert_eq!(c.claimable(id, 500).unwrap(), 200);
}

#[test]
fn cancellation_settles_fairly() {
    let (mut c, id) = engine_with_stream(1000, 0, 1000);
    c.cancel(id, SENDER, SENDER, 500).unwrap();
    assert_eq!(c.balance_of(SENDER, TOKEN), 500);
    let s = c.get_stream(id).unwrap();
    assert_eq!(s.end_time, 500);
    assert!(s.canceled);
    assert_eq!(c.claimable(id, 500).unwrap(), 500);
    c.claim(id, RECIPIENT, 500, RECIPIENT, 500).unwrap();
    assert_eq!(c.balance_of(RECIPIENT, TOKEN), 500);
    let r = c.claim(id, RECIPIENT, 1, RECIPIENT, 600);
    assert_eq!(r, Err(StreamError::ExceedsClaimable));
}

#[test]
fn custody_equals_unreleased_total_throughout() {
    let (mut c, id) = engine_with_stream(1000, 0, 1000);
    assert_eq!(c.escrow_balance(TOKEN), 1000);
    c.claim(id, RECIPIENT, 300, RECIPIENT, 500).unwrap();
    assert_eq!(c.escrow_balance(TOKEN), 700);
    c.cancel(id, SENDER, SENDER, 600).unwrap();
    // 600 had vested by the cancellation; 300 of it is already claimed.
    assert_eq!(c.balance_of(SENDER, TOKEN), 400);
    assert_eq!(c.escrow_balance(TOKEN), 300);
    c.claim(id, RECIPIENT, 300, RECIPIENT, 700).unwrap();
    assert_eq!(c.escrow_balance(TOKEN), 0);
    assert_eq!(c.balance_of(RECIPIENT, TOKEN), 600);
}

#[test]
fn double_cancel_gives_no_second_refund_or_event() {
    let (mut c, id) = engine_with_stream(1000, 0, 1000);
    c.cancel(id, SENDER, SENDER, 500).unwrap();
    let refunded = c.balance_of(SENDER, TOKEN);
    let events_before = c.events().len();
    let first = c.get_stream(id).unwrap();
    c.cancel(id, SENDER, SENDER, 800).unwrap();
    assert_eq!(c.balance_of(SENDER, TOKEN), refunded);
    assert_eq!(c.events().len(), events_before);
    assert_eq!(c.get_stream(id).unwrap(), first);
}

#[test]
fn operations_emit_one_event_each() {
    let (mut c, id) = engine_with_stream(1000, 0, 1000);
    c.claim(id, RECIPIENT, 250, RECIPIENT, 250).unwrap();
    c.cancel(id, SENDER, SENDER, 500).unwrap();
    let events = c.events();
    assert_eq!(events.len(), 3);
    assert_eq!(
        events[0],
        StreamEvent::Created(StreamCreated {
            stream_id: id,
            sender: SENDER,
            recipient: RECIPIENT,
            token: TOKEN,
            total_amount: 1000,
            start_time: 0,
            end_time: 1000,
        })
    );
    assert_eq!(
        events[1],
        StreamEvent::Claimed(StreamClaimed { stream_id: id, recipient: RECIPIENT, amount: 250 })
    );
    assert_eq!(
        events[2],
        StreamEvent::Canceled(StreamCanceled { stream_id: id, sender: SENDER })
    );
}

#[test]
fn failed_operations_change_nothing() {
    let (mut c, id) = engine_with_stream(1000, 0, 1000);
    let events_before = c.events().len();
    assert!(c.claim(id, RECIPIENT, 600, RECIPIENT, 500).is_err());
    assert!(c.cancel(id, RECIPIENT, RECIPIENT, 500).is_err());
    assert_eq!(c.events().len(), events_before);
    assert_eq!(c.escrow_balance(TOKEN), 1000);
    assert_eq!(c.balance_of(RECIPIENT, TOKEN), 0);
    assert_eq!(c.get_stream(id).unwrap().claimed_amount, 0);
}

#[test]
fn cancel_after_end_refunds_nothing_and_keeps_schedule() {
    let (mut c, id) = engine_with_stream(1000, 0, 1000);
    c.claim(id, RECIPIENT, 400, RECIPIENT, 1000).unwrap();
    c.cancel(id, SENDER, SENDER, 2000).unwrap();
    assert_eq!(c.balance_of(SENDER, TOKEN), 0);
    let s = c.get_stream(id).unwrap();
    assert_eq!(s.end_time, 1000);
    assert_eq!(s.total_amount, 1000);
    assert!(s.canceled);
    c.claim(id, RECIPIENT, 600, RECIPIENT, 2000).unwrap();
    assert_eq!(c.balance_of(RECIPIENT, TOKEN), 1000);
}

#[test]
fn cancel_before_start_keeps_one_time_unit_of_vesting() {
    let (mut c, id) = engine_with_stream(1000, 100, 1100);
    c.cancel(id, SENDER, SENDER, 50).unwrap();
    let s = c.get_stream(id).unwrap();
    assert_eq!(s.end_time, 101);
    // one time unit of the thousand-unit schedule vests: 1000 / 1000 = 1
    assert_eq!(s.total_amount, 1);
    assert_eq!(c.balance_of(SENDER, TOKEN), 999);
    assert_eq!(c.claimable(id, 101).unwrap(), 1);
    c.claim(id, RECIPIENT, 1, RECIPIENT, 101).unwrap();
    assert_eq!(c.escrow_balance(TOKEN), 0);
}

#[test]
fn stale_cancel_never_lowers_the_claimed_total() {
    let (mut c, id) = engine_with_stream(1000, 0, 1000);
    c.claim(id, RECIPIENT, 500, RECIPIENT, 500).unwrap();
    // the cancellation's clock lags behind the claim's
    c.cancel(id, SENDER, SENDER, 250).unwrap();
    let s = c.get_stream(id).unwrap();
    assert_eq!(s.total_amount, 500);
    assert_eq!(s.claimed_amount, 500);
    assert_eq!(s.end_time, 250);
    assert_eq!(c.balance_of(SENDER, TOKEN), 500);
    assert_eq!(c.escrow_balance(TOKEN), 0);
    assert_eq!(c.claimable(id, 999).unwrap(), 0);
}

#[test]
fn claim_to_overfull_recipient_fails_atomically() {
    let mut c = StellarStreamContract::new();
    c.mint(RECIPIENT, TOKEN, i128::MAX).unwrap();
    c.mint(SENDER, TOKEN, 1000).unwrap();
    let id = c
        .create_stream(SENDER, RECIPIENT, TOKEN, 1000, 0, 1000, SENDER)
        .unwrap();
    let r = c.claim(id, RECIPIENT, 500, RECIPIENT, 500);
    assert_eq!(r, Err(StreamError::TransferFailed));
    assert_eq!(c.escrow_balance(TOKEN), 1000);
    assert_eq!(c.claimable(id, 500).unwrap(), 500);
    assert_eq!(c.balance_of(RECIPIENT, TOKEN), i128::MAX);
}

#[test]
fn create_into_overfull_custody_fails() {
    let mut c = StellarStreamContract::new();
    c.mint(SENDER, TOKEN, i128::MAX).unwrap();
    c.create_stream(SENDER, RECIPIENT, TOKEN, i128::MAX, 0, 1000, SENDER)
        .unwrap();
    let other_sender: u64 = 4;
    c.mint(other_sender, TOKEN, 1000).unwrap();
    let r = c.create_stream(other_sender, RECIPIENT, TOKEN, 1000, 0, 1000, other_sender);
    assert_eq!(r, Err(StreamError::TransferFailed));
    assert_eq!(c.balance_of(other_sender, TOKEN), 1000);
}

#[test]
fn tokens_are_accounted_separately() {
    let other_token: u64 = 8;
    let mut c = StellarStreamContract::new();
    c.mint(SENDER, TOKEN, 1000).unwrap();
    c.mint(SENDER, other_token, 600).unwrap();
    let a = c
        .create_stream(SENDER, RECIPIENT, TOKEN, 1000, 0, 1000, SENDER)
        .unwrap();
    let b = c
        .create_stream(SENDER, RECIPIENT, other_token, 600, 0, 600, SENDER)
        .unwrap();
    assert_eq!(c.escrow_balance(TOKEN), 1000);
    assert_eq!(c.escrow_balance(other_token), 600);
    c.claim(a, RECIPIENT, 100, RECIPIENT, 100).unwrap();
    c.claim(b, RECIPIENT, 200, RECIPIENT, 200).unwrap();
    assert_eq!(c.escrow_balance(TOKEN), 900);
    assert_eq!(c.escrow_balance(other_token), 400);
    assert_eq!(c.balance_of(RECIPIENT, TOKEN), 100);
    assert_eq!(c.balance_of(RECIPIENT, other_token), 200);
}
