//! The stream escrow engine: creation, claims and cancellation.

use vstd::prelude::*;

use crate::errors::StreamError;
use crate::events::{StreamCanceled, StreamClaimed, StreamCreated, StreamEvent};
use crate::ledger::TokenLedger;
use crate::registry::StreamRegistry;
use crate::stream::{
    claimable_amount, claimable_spec, lemma_vested_bounds, lemma_vested_full_after_end,
    vested_amount, vested_spec, Stream,
};

verus! {

/// `s`'s contribution to the custodied balance in `token`.
pub open spec fn stream_escrow(s: Stream, token: u64) -> int {
    if s.token == token {
        s.escrow()
    } else {
        0
    }
}

/// The sum over `streams` of each stream's custodied share in `token`.
pub open spec fn escrow_sum(streams: Seq<Stream>, token: u64) -> int
    decreases streams.len(),
{
    if streams.len() == 0 {
        0
    } else {
        escrow_sum(streams.drop_last(), token) + stream_escrow(streams.last(), token)
    }
}

proof fn lemma_escrow_sum_nonneg(streams: Seq<Stream>, token: u64)
    requires
        forall|i: int| 0 <= i < streams.len() ==> (#[trigger] streams[i]).valid(),
    ensures
        0 <= escrow_sum(streams, token),
    decreases streams.len(),
{
    if streams.len() > 0 {
        lemma_escrow_sum_nonneg(streams.drop_last(), token);
        assert(streams[streams.len() - 1].valid());
    }
}

/// Each stream's share is covered by the summed custody.
proof fn lemma_escrow_sum_bound(streams: Seq<Stream>, i: int, token: u64)
    requires
        forall|j: int| 0 <= j < streams.len() ==> (#[trigger] streams[j]).valid(),
        0 <= i < streams.len(),
    ensures
        stream_escrow(streams[i], token) <= escrow_sum(streams, token),
    decreases streams.len(),
{
    if i == streams.len() - 1 {
        lemma_escrow_sum_nonneg(streams.drop_last(), token);
    } else {
        lemma_escrow_sum_bound(streams.drop_last(), i, token);
        assert(streams[streams.len() - 1].valid());
    }
}

proof fn lemma_escrow_sum_push(streams: Seq<Stream>, s: Stream, token: u64)
    ensures
        escrow_sum(streams.push(s), token) == escrow_sum(streams, token) + stream_escrow(s, token),
{
    assert(streams.push(s).drop_last() =~= streams);
}

proof fn lemma_escrow_sum_update(streams: Seq<Stream>, i: int, s: Stream, token: u64)
    requires
        0 <= i < streams.len(),
    ensures
        escrow_sum(streams.update(i, s), token) == escrow_sum(streams, token) - stream_escrow(
            streams[i],
            token,
        ) + stream_escrow(s, token),
    decreases streams.len(),
{
    let u = streams.update(i, s);
    if i == streams.len() - 1 {
        assert(u.drop_last() =~= streams.drop_last());
    } else {
        assert(u.drop_last() =~= streams.drop_last().update(i, s));
        lemma_escrow_sum_update(streams.drop_last(), i, s, token);
    }
}

/// The effective end of a schedule canceled at `now`: the cancellation
/// moment, but at least one time unit past the start, so the record keeps a
/// non-empty window.
pub open spec fn cancel_end(s: Stream, now: u64) -> u64 {
    if now > s.start_time {
        now
    } else {
        (s.start_time + 1) as u64
    }
}

/// The record a cancellation at `now` leaves behind: the schedule is
/// truncated to `cancel_end` (never lengthened), the total is frozen at
/// what had vested by then — never below what is already claimed, so a
/// stale clock cannot break the accounting — and the record is marked
/// canceled. Freezing the total is what keeps the linear formula reporting
/// exactly the vested-but-unclaimed residue as claimable afterwards.
pub open spec fn canceled_stream(s: Stream, now: u64) -> Stream {
    let effective_end = cancel_end(s, now);
    let vested = vested_spec(s, effective_end);
    let frozen = if vested > s.claimed_amount {
        vested
    } else {
        s.claimed_amount as int
    };
    Stream {
        total_amount: frozen as i128,
        end_time: if effective_end < s.end_time {
            effective_end
        } else {
            s.end_time
        },
        canceled: true,
        ..s
    }
}

/// What a cancellation at `now` refunds to the sender: the unvested
/// remainder of the deposit.
pub open spec fn cancel_refund(s: Stream, now: u64) -> int {
    s.total_amount - canceled_stream(s, now).total_amount
}

/// How one operation may change one recorded stream: the parties, the token
/// and the start are immutable, the claimed amount never decreases, the
/// schedule and the total never grow, and cancellation is one-way.
pub open spec fn stream_evolves(pre: Stream, post: Stream) -> bool {
    &&& post.sender == pre.sender
    &&& post.recipient == pre.recipient
    &&& post.token == pre.token
    &&& post.start_time == pre.start_time
    &&& post.end_time <= pre.end_time
    &&& post.total_amount <= pre.total_amount
    &&& pre.claimed_amount <= post.claimed_amount
    &&& pre.canceled ==> post.canceled
}

/// The escrow engine: the stream registry, the token ledger it settles
/// against, and the notifications it has emitted.
pub struct StellarStreamContract {
    registry: StreamRegistry,
    ledger: TokenLedger,
    events: Vec<StreamEvent>,
}

impl StellarStreamContract {
    /// All recorded streams, stream `id` at position `id - 1`.
    pub closed spec fn streams_view(self) -> Seq<Stream> {
        self.registry@
    }

    /// The ledger balance of `owner` in `token`.
    pub closed spec fn balance_view(self, owner: u64, token: u64) -> int {
        self.ledger.balance_spec(owner, token)
    }

    /// The custodied balance in `token`.
    pub closed spec fn escrow_view(self, token: u64) -> int {
        self.ledger.escrow_spec(token)
    }

    /// Every notification emitted so far, oldest first.
    pub closed spec fn events_view(self) -> Seq<StreamEvent> {
        self.events@
    }

    /// The ledger's own sanity: no negative balance anywhere.
    pub closed spec fn ledger_ok(self) -> bool {
        self.ledger.wf()
    }

    /// The engine invariant, re-established by every operation: every
    /// recorded stream is valid (`0 <= claimed_amount <= total_amount`,
    /// non-empty schedule), and the custodied balance of every token is
    /// exactly the sum of its streams' unreleased shares.
    pub open spec fn wf(self) -> bool {
        &&& self.ledger_ok()
        &&& forall|i: int|
            0 <= i < self.streams_view().len() ==> (#[trigger] self.streams_view()[i]).valid()
        &&& forall|t: u64| #[trigger] self.escrow_view(t) == escrow_sum(self.streams_view(), t)
    }

    /// How many streams have been created.
    pub open spec fn stream_count(self) -> nat {
        self.streams_view().len()
    }

    /// Whether a stream is recorded under `stream_id`.
    pub open spec fn contains_stream(self, stream_id: u64) -> bool {
        1 <= stream_id <= self.streams_view().len()
    }

    /// The stream recorded under `stream_id`.
    pub open spec fn stream_view(self, stream_id: u64) -> Stream {
        self.streams_view()[stream_id - 1]
    }

    /// Both states show the same streams, balances, custody and events.
    pub open spec fn same_state(self, other: Self) -> bool {
        &&& self.streams_view() =~= other.streams_view()
        &&& self.events_view() =~= other.events_view()
        &&& forall|o: u64, t: u64| #[trigger] self.balance_view(o, t) == other.balance_view(o, t)
        &&& forall|t: u64| #[trigger] self.escrow_view(t) == other.escrow_view(t)
    }

    /// No operation deletes a stream, rewrites its immutable fields, takes
    /// back claimed funds, lengthens a schedule or un-cancels.
    pub open spec fn evolves_from(self, pre: Self) -> bool {
        &&& pre.stream_count() <= self.stream_count()
        &&& forall|id: u64|
            pre.contains_stream(id) ==> stream_evolves(
                pre.stream_view(id),
                #[trigger] self.stream_view(id),
            )
    }

    /// Conservation, stated on its own: in a well-formed engine the
    /// custodied balance of every token equals the sum over all streams of
    /// that token's `total_amount - claimed_amount`.
    pub proof fn lemma_conservation(self, token: u64)
        requires
            self.wf(),
        ensures
            self.escrow_view(token) == escrow_sum(self.streams_view(), token),
    {
    }

    /// Validity, stated on its own: every recorded stream of a well-formed
    /// engine keeps `0 <= claimed_amount <= total_amount` and a non-empty
    /// schedule window.
    pub proof fn lemma_streams_valid(self, stream_id: u64)
        requires
            self.wf(),
            self.contains_stream(stream_id),
        ensures
            self.stream_view(stream_id).valid(),
    {
    }

    /// Fair settlement of a cancellation whose clock has not gone backwards
    /// (nothing claimed beyond what has vested at `now`) and that comes
    /// after the schedule's start: the canceled record keeps in custody
    /// exactly the vested-but-unclaimed residue, and the refund is exactly
    /// the unvested remainder.
    pub proof fn lemma_cancel_settlement(s: Stream, now: u64)
        requires
            s.valid(),
            now > s.start_time,
            s.claimed_amount <= vested_spec(s, now),
        ensures
            canceled_stream(s, now).escrow() == vested_spec(s, now) - s.claimed_amount,
            cancel_refund(s, now) == s.total_amount - vested_spec(s, now),
    {
        lemma_vested_bounds(s, now);
    }

    /// What cancellation leaves the recipient: from the truncated end on,
    /// exactly the frozen-but-unclaimed residue is claimable — truncation
    /// takes nothing away that had already vested.
    pub proof fn lemma_canceled_claimable(s: Stream, now: u64, at_time: u64)
        requires
            s.valid(),
            at_time >= canceled_stream(s, now).end_time,
        ensures
            claimable_spec(canceled_stream(s, now), at_time) == canceled_stream(s, now).escrow(),
    {
        lemma_vested_bounds(s, cancel_end(s, now));
        let truncated = canceled_stream(s, now);
        lemma_vested_full_after_end(truncated, at_time);
    }

    /// A fresh engine: no streams, no balances, no events.
    pub fn new() -> (c: StellarStreamContract)
        ensures
            c.wf(),
            c.stream_count() == 0,
            c.events_view() =~= Seq::<StreamEvent>::empty(),
            forall|o: u64, t: u64| #[trigger] c.balance_view(o, t) == 0,
            forall|t: u64| #[trigger] c.escrow_view(t) == 0,
    {
        StellarStreamContract {
            registry: StreamRegistry::new(),
            ledger: TokenLedger::new(),
            events: Vec::new(),
        }
    }

    /// The identifier most recently allocated (0 when no stream exists
    /// yet); the next stream gets this plus one.
    pub fn get_next_stream_id(&self) -> (r: u64)
        ensures
            r == self.stream_count(),
    {
        self.registry.last_id()
    }

    /// The recorded stream under `stream_id`; a pure read, open to anyone.
    pub fn get_stream(&self, stream_id: u64) -> (r: Result<Stream, StreamError>)
        ensures
            match r {
                Ok(s) => self.contains_stream(stream_id) && s == self.stream_view(stream_id),
                Err(e) => !self.contains_stream(stream_id) && e == StreamError::NotFound,
            },
    {
        match self.registry.get(stream_id) {
            Some(s) => Ok(*s),
            None => Err(StreamError::NotFound),
        }
    }

    /// What the recipient of `stream_id` could claim at `at_time`; a pure
    /// read, open to anyone, and never negative.
    pub fn claimable(&self, stream_id: u64, at_time: u64) -> (r: Result<i128, StreamError>)
        requires
            self.wf(),
        ensures
            match r {
                Ok(v) => {
                    &&& self.contains_stream(stream_id)
                    &&& v == claimable_spec(self.stream_view(stream_id), at_time)
                    &&& 0 <= v
                },
                Err(e) => !self.contains_stream(stream_id) && e == StreamError::NotFound,
            },
    {
        match self.registry.get(stream_id) {
            Some(s) => {
                proof {
                    assert(self.streams_view()[stream_id - 1].valid());
                }
                Ok(claimable_amount(s, at_time))
            },
            None => Err(StreamError::NotFound),
        }
    }

    /// The ledger balance of `owner` in `token`.
    pub fn balance_of(&self, owner: u64, token: u64) -> (r: i128)
        ensures
            r == self.balance_view(owner, token),
    {
        self.ledger.balance_of(owner, token)
    }

    /// The custodied balance in `token`.
    pub fn escrow_balance(&self, token: u64) -> (r: i128)
        ensures
            r == self.escrow_view(token),
    {
        self.ledger.escrow_of(token)
    }

    /// Every notification emitted so far, oldest first.
    pub fn events(&self) -> (r: &Vec<StreamEvent>)
        ensures
            r@ =~= self.events_view(),
    {
        &self.events
    }

    /// The outcome `create_stream` will report, its conditions tested in
    /// this order (the first failure wins).
    pub open spec fn create_check(
        self,
        sender: u64,
        token: u64,
        total_amount: i128,
        start_time: u64,
        end_time: u64,
        caller: u64,
    ) -> Result<(), StreamError> {
        if caller != sender {
            Err(StreamError::Unauthorized)
        } else if total_amount <= 0 {
            Err(StreamError::InvalidAmount)
        } else if end_time <= start_time {
            Err(StreamError::InvalidTimeRange)
        } else if self.balance_view(sender, token) < total_amount {
            Err(StreamError::InsufficientBalance)
        } else if self.escrow_view(token) + total_amount > i128::MAX {
            Err(StreamError::TransferFailed)
        } else {
            Ok(())
        }
    }

    /// Creates a stream: once the caller proves it is `sender` and the
    /// inputs validate, `total_amount` moves from the sender into custody
    /// and the record is stored, with nothing claimed yet, under the next
    /// unused identifier, which is returned.
    pub fn create_stream(
        &mut self,
        sender: u64,
        recipient: u64,
        token: u64,
        total_amount: i128,
        start_time: u64,
        end_time: u64,
        caller: u64,
    ) -> (r: Result<u64, StreamError>)
        requires
            old(self).wf(),
            old(self).stream_count() < u64::MAX,
        ensures
            final(self).wf(),
            final(self).evolves_from(*old(self)),
            (match old(self).create_check(sender, token, total_amount, start_time, end_time, caller) {
                Err(e) => r == Err::<u64, StreamError>(e) && final(self).same_state(*old(self)),
                Ok(()) => ({
                    let id = (old(self).stream_count() + 1) as u64;
                    let s = (Stream {
                        sender,
                        recipient,
                        token,
                        total_amount,
                        claimed_amount: 0,
                        start_time,
                        end_time,
                        canceled: false,
                    });
                    &&& r == Ok::<u64, StreamError>(id)
                    &&& final(self).streams_view() =~= old(self).streams_view().push(s)
                    &&& final(self).balance_view(sender, token) == old(self).balance_view(
                        sender,
                        token,
                    ) - total_amount
                    &&& forall|o: u64, t: u64|
                        !(o == sender && t == token) ==> #[trigger] final(self).balance_view(o, t)
                            == old(self).balance_view(o, t)
                    &&& final(self).escrow_view(token) == old(self).escrow_view(token)
                        + total_amount
                    &&& forall|t: u64|
                        t != token ==> #[trigger] final(self).escrow_view(t) == old(
                            self,
                        ).escrow_view(t)
                    &&& final(self).events_view() =~= old(self).events_view().push(
                        StreamEvent::Created(
                            StreamCreated {
                                stream_id: id,
                                sender,
                                recipient,
                                token,
                                total_amount,
                                start_time,
                                end_time,
                            },
                        ),
                    )
                }),
            }),
    {
        if caller != sender {
            return Err(StreamError::Unauthorized);
        }
        if total_amount <= 0 {
            return Err(StreamError::InvalidAmount);
        }
        if end_time <= start_time {
            return Err(StreamError::InvalidTimeRange);
        }
        let sender_balance = self.ledger.balance_of(sender, token);
        if sender_balance < total_amount {
            return Err(StreamError::InsufficientBalance);
        }
        match self.ledger.deposit(sender, token, total_amount) {
            Ok(()) => {},
            Err(()) => return Err(StreamError::TransferFailed),
        }
        let stream = Stream {
            sender,
            recipient,
            token,
            total_amount,
            claimed_amount: 0,
            start_time,
            end_time,
            canceled: false,
        };
        let stream_id = self.registry.append(stream);
        self.events.push(
            StreamEvent::Created(
                StreamCreated {
                    stream_id,
                    sender,
                    recipient,
                    token,
                    total_amount,
                    start_time,
                    end_time,
                },
            ),
        );
        proof {
            assert forall|t: u64| #[trigger]
                self.escrow_view(t) == escrow_sum(self.streams_view(), t) by {
                assert(old(self).escrow_view(t) == escrow_sum(old(self).streams_view(), t));
                lemma_escrow_sum_push(old(self).streams_view(), stream, t);
            }
        }
        Ok(stream_id)
    }

    /// The outcome `claim` will report, its conditions tested in this order
    /// (the first failure wins). The recipient match is deliberately tested
    /// before the caller's identity: a caller learns of a mismatch without
    /// ever proving who it is.
    pub open spec fn claim_check(
        self,
        stream_id: u64,
        recipient: u64,
        amount: i128,
        caller: u64,
        now: u64,
    ) -> Result<(), StreamError> {
        if amount <= 0 {
            Err(StreamError::InvalidAmount)
        } else if !self.contains_stream(stream_id) {
            Err(StreamError::NotFound)
        } else if self.stream_view(stream_id).recipient != recipient {
            Err(StreamError::RecipientMismatch)
        } else if caller != recipient {
            Err(StreamError::Unauthorized)
        } else if amount > claimable_spec(self.stream_view(stream_id), now) {
            Err(StreamError::ExceedsClaimable)
        } else if self.balance_view(recipient, self.stream_view(stream_id).token) + amount
            > i128::MAX {
            Err(StreamError::TransferFailed)
        } else {
            Ok(())
        }
    }

    /// Claims `amount` of the vested funds of `stream_id` for `recipient`
    /// at time `now`: the funds move from custody to the recipient, and
    /// only then is the claimed amount increased. Repeated claims need no
    /// replay window: each one is bounded by the shrinking claimable value.
    pub fn claim(
        &mut self,
        stream_id: u64,
        recipient: u64,
        amount: i128,
        caller: u64,
        now: u64,
    ) -> (r: Result<i128, StreamError>)
        requires
            old(self).wf(),
        ensures
            final(self).wf(),
            final(self).evolves_from(*old(self)),
            (match old(self).claim_check(stream_id, recipient, amount, caller, now) {
                Err(e) => r == Err::<i128, StreamError>(e) && final(self).same_state(*old(self)),
                Ok(()) => ({
                    let s = old(self).stream_view(stream_id);
                    let updated = (Stream {
                        claimed_amount: (s.claimed_amount + amount) as i128,
                        ..s
                    });
                    &&& r == Ok::<i128, StreamError>(amount)
                    &&& final(self).streams_view() =~= old(self).streams_view().update(
                        stream_id - 1,
                        updated,
                    )
                    &&& final(self).balance_view(recipient, s.token) == old(self).balance_view(
                        recipient,
                        s.token,
                    ) + amount
                    &&& forall|o: u64, t: u64|
                        !(o == recipient && t == s.token) ==> #[trigger] final(self).balance_view(
                            o,
                            t,
                        ) == old(self).balance_view(o, t)
                    &&& final(self).escrow_view(s.token) == old(self).escrow_view(s.token) - amount
                    &&& forall|t: u64|
                        t != s.token ==> #[trigger] final(self).escrow_view(t) == old(
                            self,
                        ).escrow_view(t)
                    &&& final(self).events_view() =~= old(self).events_view().push(
                        StreamEvent::Claimed(StreamClaimed { stream_id, recipient, amount }),
                    )
                }),
            }),
    {
        if amount <= 0 {
            return Err(StreamError::InvalidAmount);
        }
        let stream = match self.registry.get(stream_id) {
            Some(s) => *s,
            None => return Err(StreamError::NotFound),
        };
        if stream.recipient != recipient {
            return Err(StreamError::RecipientMismatch);
        }
        if caller != recipient {
            return Err(StreamError::Unauthorized);
        }
        proof {
            assert(old(self).streams_view()[stream_id - 1].valid());
            lemma_vested_bounds(stream, now);
        }
        let claimable_now = claimable_amount(&stream, now);
        if amount > claimable_now {
            return Err(StreamError::ExceedsClaimable);
        }
        proof {
            lemma_escrow_sum_bound(old(self).streams_view(), stream_id - 1, stream.token);
            assert(old(self).escrow_view(stream.token) == escrow_sum(
                old(self).streams_view(),
                stream.token,
            ));
        }
        match self.ledger.withdraw(recipient, stream.token, amount) {
            Ok(()) => {},
            Err(()) => return Err(StreamError::TransferFailed),
        }
        let updated = Stream { claimed_amount: stream.claimed_amount + amount, ..stream };
        self.registry.update(stream_id, updated);
        self.events.push(StreamEvent::Claimed(StreamClaimed { stream_id, recipient, amount }));
        proof {
            assert(updated.valid());
            assert forall|t: u64| #[trigger]
                self.escrow_view(t) == escrow_sum(self.streams_view(), t) by {
                assert(old(self).escrow_view(t) == escrow_sum(old(self).streams_view(), t));
                lemma_escrow_sum_update(old(self).streams_view(), stream_id - 1, updated, t);
            }
        }
        Ok(amount)
    }

    /// The outcome `cancel` will report, its conditions tested in this
    /// order. Cancelling an already-canceled stream reports `Ok` and is the
    /// one designed no-op, so no transfer can fail on that path.
    pub open spec fn cancel_check(self, stream_id: u64, sender: u64, caller: u64, now: u64) -> Result<
        (),
        StreamError,
    > {
        if !self.contains_stream(stream_id) {
            Err(StreamError::NotFound)
        } else if self.stream_view(stream_id).sender != sender {
            Err(StreamError::SenderMismatch)
        } else if caller != sender {
            Err(StreamError::Unauthorized)
        } else if !self.stream_view(stream_id).canceled && self.balance_view(
            sender,
            self.stream_view(stream_id).token,
        ) + cancel_refund(self.stream_view(stream_id), now) > i128::MAX {
            Err(StreamError::TransferFailed)
        } else {
            Ok(())
        }
    }

    /// Cancels `stream_id` at time `now`: the schedule is truncated (never
    /// lengthened), the unvested remainder is refunded to the sender, and
    /// the vested-but-unclaimed remainder stays in custody, still claimable
    /// by the recipient. Cancelling twice is a no-op the second time: no
    /// error, no second refund, no second event.
    pub fn cancel(&mut self, stream_id: u64, sender: u64, caller: u64, now: u64) -> (r: Result<
        (),
        StreamError,
    >)
        requires
            old(self).wf(),
        ensures
            final(self).wf(),
            final(self).evolves_from(*old(self)),
            (match old(self).cancel_check(stream_id, sender, caller, now) {
                Err(e) => r == Err::<(), StreamError>(e) && final(self).same_state(*old(self)),
                Ok(()) => ({
                    let s = old(self).stream_view(stream_id);
                    if s.canceled {
                        r == Ok::<(), StreamError>(()) && final(self).same_state(*old(self))
                    } else {
                        let updated = canceled_stream(s, now);
                        let refund = cancel_refund(s, now);
                        &&& r == Ok::<(), StreamError>(())
                        &&& final(self).streams_view() =~= old(self).streams_view().update(
                            stream_id - 1,
                            updated,
                        )
                        &&& final(self).balance_view(sender, s.token) == old(self).balance_view(
                            sender,
                            s.token,
                        ) + refund
                        &&& forall|o: u64, t: u64|
                            !(o == sender && t == s.token) ==> #[trigger] final(self).balance_view(o, t)
                                == old(self).balance_view(o, t)
                        &&& final(self).escrow_view(s.token) == old(self).escrow_view(s.token)
                            - refund
                        &&& forall|t: u64|
                            t != s.token ==> #[trigger] final(self).escrow_view(t) == old(
                                self,
                            ).escrow_view(t)
                        &&& final(self).events_view() =~= old(self).events_view().push(
                            StreamEvent::Canceled(StreamCanceled { stream_id, sender }),
                        )
                    }
                }),
            }),
    {
        let stream = match self.registry.get(stream_id) {
            Some(s) => *s,
            None => return Err(StreamError::NotFound),
        };
        if stream.sender != sender {
            return Err(StreamError::SenderMismatch);
        }
        if caller != sender {
            return Err(StreamError::Unauthorized);
        }
        if stream.canceled {
            return Ok(());
        }
        proof {
            assert(old(self).streams_view()[stream_id - 1].valid());
            self.ledger.lemma_nonneg(sender, stream.token);
        }
        let min_end: u64 = if now > stream.start_time {
            now
        } else {
            stream.start_time + 1
        };
        let vested_cap: i128 = vested_amount(&stream, min_end);
        let frozen_total: i128 = if vested_cap > stream.claimed_amount {
            vested_cap
        } else {
            stream.claimed_amount
        };
        let refund: i128 = stream.total_amount - frozen_total;
        if refund > 0 {
            proof {
                lemma_escrow_sum_bound(old(self).streams_view(), stream_id - 1, stream.token);
                assert(old(self).escrow_view(stream.token) == escrow_sum(
                    old(self).streams_view(),
                    stream.token,
                ));
            }
            match self.ledger.withdraw(sender, stream.token, refund) {
                Ok(()) => {},
                Err(()) => return Err(StreamError::TransferFailed),
            }
        }
        let new_end: u64 = if min_end < stream.end_time {
            min_end
        } else {
            stream.end_time
        };
        let updated = Stream {
            total_amount: frozen_total,
            end_time: new_end,
            canceled: true,
            ..stream
        };
        self.registry.update(stream_id, updated);
        self.events.push(StreamEvent::Canceled(StreamCanceled { stream_id, sender }));
        proof {
            assert(updated == canceled_stream(stream, now));
            assert(updated.valid());
            assert forall|t: u64| #[trigger]
                self.escrow_view(t) == escrow_sum(self.streams_view(), t) by {
                assert(old(self).escrow_view(t) == escrow_sum(old(self).streams_view(), t));
                lemma_escrow_sum_update(old(self).streams_view(), stream_id - 1, updated, t);
            }
        }
        Ok(())
    }

    /// Mints `amount` of `token` into `owner`'s ledger balance: the stand-in
    /// for the external token's issuance, used to fund senders.
    pub fn mint(&mut self, owner: u64, token: u64, amount: i128) -> (r: Result<(), StreamError>)
        requires
            old(self).wf(),
        ensures
            final(self).wf(),
            final(self).evolves_from(*old(self)),
            amount <= 0 ==> r == Err::<(), StreamError>(StreamError::InvalidAmount),
            amount > 0 && old(self).balance_view(owner, token) + amount > i128::MAX ==> r == Err::<
                (),
                StreamError,
            >(StreamError::TransferFailed),
            r is Err ==> final(self).same_state(*old(self)),
            r is Ok <==> (0 < amount && old(self).balance_view(owner, token) + amount
                <= i128::MAX),
            r is Ok ==> {
                &&& final(self).balance_view(owner, token) == old(self).balance_view(owner, token)
                    + amount
                &&& forall|o: u64, t: u64|
                    !(o == owner && t == token) ==> #[trigger] final(self).balance_view(o, t)
                        == old(self).balance_view(o, t)
                &&& forall|t: u64|
                    #[trigger] final(self).escrow_view(t) == old(self).escrow_view(t)
                &&& final(self).streams_view() =~= old(self).streams_view()
                &&& final(self).events_view() =~= old(self).events_view()
            },
    {
        if amount <= 0 {
            return Err(StreamError::InvalidAmount);
        }
        let outcome = self.ledger.credit(owner, token, amount);
        proof {
            assert(self.streams_view() == old(self).streams_view());
            assert(self.events_view() == old(self).events_view());
            assert forall|t: u64| #[trigger]
                self.escrow_view(t) == escrow_sum(self.streams_view(), t) by {
                assert(old(self).escrow_view(t) == escrow_sum(old(self).streams_view(), t));
                assert(self.escrow_view(t) == old(self).escrow_view(t));
            }
        }
        match outcome {
            Ok(()) => Ok(()),
            Err(()) => Err(StreamError::TransferFailed),
        }
    }
}

} // verus!
