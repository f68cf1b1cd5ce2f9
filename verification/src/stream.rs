//! The vesting schedule record and the linear vesting calculator.

use vstd::prelude::*;
use vstd::arithmetic::div_mod::{
    lemma_div_by_multiple, lemma_div_is_ordered, lemma_div_pos_is_pos, lemma_fundamental_div_mod,
    lemma_fundamental_div_mod_converse_div, lemma_mod_bound,
};
use vstd::arithmetic::mul::{lemma_mul_inequality, lemma_mul_nonnegative, lemma_mul_upper_bound};

verus! {

/// One vesting escrow between a sender and a recipient for one token.
///
/// `total_amount` is deposited into custody when the stream is created and
/// vests linearly between `start_time` and `end_time`. `claimed_amount`
/// grows monotonically as the recipient claims; cancellation may truncate
/// the schedule but never extends it.
#[derive(Clone, Copy, Debug, PartialEq, Eq, Structural)]
pub struct Stream {
    pub sender: u64,
    pub recipient: u64,
    pub token: u64,
    pub total_amount: i128,
    pub claimed_amount: i128,
    pub start_time: u64,
    pub end_time: u64,
    pub canceled: bool,
}

impl Stream {
    /// The schedule's times are ordered; enough for the vesting calculation
    /// to be defined.
    pub open spec fn time_ordered(self) -> bool {
        self.start_time <= self.end_time
    }

    /// Well-formedness of a recorded stream: the claimed amount never leaves
    /// `[0, total_amount]`, the schedule is a non-empty window, and a stream
    /// that was never canceled still carries its positive deposit.
    pub open spec fn valid(self) -> bool {
        &&& 0 <= self.claimed_amount <= self.total_amount
        &&& self.start_time < self.end_time
        &&& !self.canceled ==> 0 < self.total_amount
    }

    /// The share of this stream's deposit still held in custody.
    pub open spec fn escrow(self) -> int {
        self.total_amount - self.claimed_amount
    }
}

/// How much of `s.total_amount` has vested by `at_time`: nothing at or
/// before `start_time`, everything from `end_time` on, and in between the
/// fraction of the schedule that has elapsed, rounded down.
pub open spec fn vested_spec(s: Stream, at_time: u64) -> int {
    if at_time <= s.start_time {
        0
    } else {
        let effective: int = if at_time >= s.end_time {
            s.end_time as int
        } else {
            at_time as int
        };
        let elapsed: int = effective - s.start_time;
        let duration: int = s.end_time - s.start_time;
        if duration == 0 {
            s.total_amount as int
        } else {
            s.total_amount * elapsed / duration
        }
    }
}

/// What the recipient may still claim at `at_time`: the vested amount less
/// what was already claimed, floored at zero.
pub open spec fn claimable_spec(s: Stream, at_time: u64) -> int {
    let remaining: int = vested_spec(s, at_time) - s.claimed_amount;
    if remaining < 0 {
        0
    } else {
        remaining
    }
}

/// Splitting a product-then-divide into a whole part and a remainder part:
/// `t * e / d == (t / d) * e + (t % d) * e / d`. This is what lets the
/// vesting calculation widen to 128-bit unsigned arithmetic without the
/// product `t * e` ever being formed.
proof fn lemma_mul_div_split(t: int, e: int, d: int)
    requires
        0 <= t,
        0 <= e,
        0 < d,
    ensures
        t * e / d == (t / d) * e + (t % d) * e / d,
{
    let q = t / d;
    let r = t % d;
    lemma_fundamental_div_mod(t, d);
    lemma_mod_bound(t, d);
    lemma_div_pos_is_pos(t, d);
    lemma_mul_nonnegative(r, e);
    let q2 = r * e / d;
    let r2 = (r * e) % d;
    lemma_fundamental_div_mod(r * e, d);
    lemma_mod_bound(r * e, d);
    assert(t * e == (q * e + q2) * d + r2) by (nonlinear_arith)
        requires
            t == d * q + r,
            r * e == d * q2 + r2,
    ;
    lemma_fundamental_div_mod_converse_div(t * e, d, q * e + q2, r2);
}

/// The vested amount always lies between zero and the stream's total.
pub proof fn lemma_vested_bounds(s: Stream, at_time: u64)
    requires
        s.time_ordered(),
        0 <= s.total_amount,
    ensures
        0 <= vested_spec(s, at_time) <= s.total_amount,
{
    if at_time > s.start_time {
        let t = s.total_amount as int;
        let e = (if at_time >= s.end_time { s.end_time as int } else { at_time as int })
            - s.start_time;
        let d = s.end_time - s.start_time;
        if d != 0 {
            lemma_mul_nonnegative(t, e);
            lemma_div_pos_is_pos(t * e, d);
            lemma_mul_inequality(e, d, t);
            lemma_div_is_ordered(t * e, t * d, d);
            lemma_div_by_multiple(t, d);
        }
    }
}

/// Vesting is monotone in time: a later query never reports less vested.
pub proof fn lemma_vested_monotonic(s: Stream, t1: u64, t2: u64)
    requires
        s.time_ordered(),
        0 <= s.total_amount,
        t1 <= t2,
    ensures
        vested_spec(s, t1) <= vested_spec(s, t2),
{
    lemma_vested_bounds(s, t1);
    lemma_vested_bounds(s, t2);
    if t1 > s.start_time && t2 > s.start_time {
        let t = s.total_amount as int;
        let e1 = (if t1 >= s.end_time { s.end_time as int } else { t1 as int }) - s.start_time;
        let e2 = (if t2 >= s.end_time { s.end_time as int } else { t2 as int }) - s.start_time;
        let d = s.end_time - s.start_time;
        if d != 0 {
            lemma_mul_inequality(e1, e2, t);
            lemma_div_is_ordered(t * e1, t * e2, d);
        }
    }
}

/// From the end of the schedule on, the whole total has vested. (For the
/// degenerate instantaneous schedule, `start_time == end_time`, this holds
/// as soon as the query time passes the start.)
pub proof fn lemma_vested_full_after_end(s: Stream, at_time: u64)
    requires
        s.time_ordered(),
        0 <= s.total_amount,
        at_time >= s.end_time,
        at_time > s.start_time,
    ensures
        vested_spec(s, at_time) == s.total_amount,
{
    let t = s.total_amount as int;
    let d = s.end_time - s.start_time;
    if d != 0 {
        lemma_div_by_multiple(t, d);
    }
}

/// Computes `vested_spec` executably. The multiply is widened by splitting
/// the total into a whole number of shares per time unit plus a remainder,
/// so no intermediate value outgrows `u128`.
pub fn vested_amount(stream: &Stream, at_time: u64) -> (r: i128)
    requires
        stream.time_ordered(),
        0 <= stream.total_amount,
    ensures
        r == vested_spec(*stream, at_time),
        0 <= r <= stream.total_amount,
{
    proof {
        lemma_vested_bounds(*stream, at_time);
    }
    if at_time <= stream.start_time {
        return 0;
    }
    let effective_time: u64 = if at_time >= stream.end_time {
        stream.end_time
    } else {
        at_time
    };
    let elapsed: u128 = (effective_time - stream.start_time) as u128;
    let duration: u128 = (stream.end_time - stream.start_time) as u128;
    if duration == 0 {
        return stream.total_amount;
    }
    let total: u128 = stream.total_amount as u128;
    let whole: u128 = total / duration;
    let frac: u128 = total % duration;
    proof {
        let t = stream.total_amount as int;
        let e = elapsed as int;
        let d = duration as int;
        lemma_fundamental_div_mod(t, d);
        lemma_mod_bound(t, d);
        lemma_div_pos_is_pos(t, d);
        lemma_mul_inequality(e, d, t / d);
        lemma_mul_upper_bound(t % d, d - 1, e, u64::MAX as int);
        lemma_mul_nonnegative(t % d, e);
        lemma_div_pos_is_pos((t % d) * e, d);
        lemma_mul_div_split(t, e, d);
        lemma_mul_inequality(e, d, t);
        lemma_div_is_ordered(t * e, t * d, d);
        lemma_div_by_multiple(t, d);
    }
    let scaled: u128 = whole * elapsed + (frac * elapsed) / duration;
    scaled as i128
}

/// Computes `claimable_spec` executably: vested minus claimed, clamped at
/// zero. The clamp is a defensive invariant for queries that look at times
/// before claims already made were effective.
pub fn claimable_amount(stream: &Stream, at_time: u64) -> (r: i128)
    requires
        stream.time_ordered(),
        0 <= stream.claimed_amount,
        0 <= stream.total_amount,
    ensures
        r == claimable_spec(*stream, at_time),
        0 <= r,
{
    let vested: i128 = vested_amount(stream, at_time);
    let remaining: i128 = vested - stream.claimed_amount;
    if remaining < 0 {
        0
    } else {
        remaining
    }
}

} // verus!
