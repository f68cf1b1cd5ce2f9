//! An in-memory double of the external token ledger.
//!
//! The engine never moves real funds; it calls this ledger, which keeps one
//! balance per `(owner, token)` pair plus one custodied (escrow) balance per
//! token. Every movement is all-or-nothing: a transfer that cannot be paid,
//! or whose destination balance would not fit, fails and changes nothing.

use vstd::prelude::*;

verus! {

/// One account's balance in one token.
#[derive(Clone, Copy, Debug, PartialEq, Eq, Structural)]
pub struct AccountBalance {
    pub owner: u64,
    pub token: u64,
    pub amount: i128,
}

/// The custodied balance of the escrow in one token.
#[derive(Clone, Copy, Debug, PartialEq, Eq, Structural)]
pub struct EscrowBalance {
    pub token: u64,
    pub amount: i128,
}

/// The balance the account entries give `(owner, token)`; the last matching
/// entry wins, and an absent pair has balance zero.
spec fn account_balance_in(entries: Seq<AccountBalance>, owner: u64, token: u64) -> int
    decreases entries.len(),
{
    if entries.len() == 0 {
        0
    } else if entries.last().owner == owner && entries.last().token == token {
        entries.last().amount as int
    } else {
        account_balance_in(entries.drop_last(), owner, token)
    }
}

/// The custodied balance the escrow entries give `token`, as above.
spec fn escrow_balance_in(entries: Seq<EscrowBalance>, token: u64) -> int
    decreases entries.len(),
{
    if entries.len() == 0 {
        0
    } else if entries.last().token == token {
        entries.last().amount as int
    } else {
        escrow_balance_in(entries.drop_last(), token)
    }
}

proof fn lemma_account_nonneg(entries: Seq<AccountBalance>, owner: u64, token: u64)
    requires
        forall|i: int| 0 <= i < entries.len() ==> 0 <= (#[trigger] entries[i]).amount,
    ensures
        0 <= account_balance_in(entries, owner, token) <= i128::MAX,
    decreases entries.len(),
{
    if entries.len() > 0 {
        lemma_account_nonneg(entries.drop_last(), owner, token);
    }
}

proof fn lemma_escrow_nonneg(entries: Seq<EscrowBalance>, token: u64)
    requires
        forall|i: int| 0 <= i < entries.len() ==> 0 <= (#[trigger] entries[i]).amount,
    ensures
        0 <= escrow_balance_in(entries, token) <= i128::MAX,
    decreases entries.len(),
{
    if entries.len() > 0 {
        lemma_escrow_nonneg(entries.drop_last(), token);
    }
}

/// A last-match index determines the balance of its own pair.
proof fn lemma_account_at_last_match(entries: Seq<AccountBalance>, i: int, owner: u64, token: u64)
    requires
        0 <= i < entries.len(),
        entries[i].owner == owner && entries[i].token == token,
        forall|j: int|
            i < j < entries.len() ==> !((#[trigger] entries[j]).owner == owner
                && entries[j].token == token),
    ensures
        account_balance_in(entries, owner, token) == entries[i].amount,
    decreases entries.len(),
{
    if i < entries.len() - 1 {
        lemma_account_at_last_match(entries.drop_last(), i, owner, token);
    }
}

proof fn lemma_account_no_match(entries: Seq<AccountBalance>, owner: u64, token: u64)
    requires
        forall|j: int|
            0 <= j < entries.len() ==> !((#[trigger] entries[j]).owner == owner
                && entries[j].token == token),
    ensures
        account_balance_in(entries, owner, token) == 0,
    decreases entries.len(),
{
    if entries.len() > 0 {
        lemma_account_no_match(entries.drop_last(), owner, token);
    }
}

proof fn lemma_escrow_at_last_match(entries: Seq<EscrowBalance>, i: int, token: u64)
    requires
        0 <= i < entries.len(),
        entries[i].token == token,
        forall|j: int| i < j < entries.len() ==> (#[trigger] entries[j]).token != token,
    ensures
        escrow_balance_in(entries, token) == entries[i].amount,
    decreases entries.len(),
{
    if i < entries.len() - 1 {
        lemma_escrow_at_last_match(entries.drop_last(), i, token);
    }
}

proof fn lemma_escrow_no_match(entries: Seq<EscrowBalance>, token: u64)
    requires
        forall|j: int| 0 <= j < entries.len() ==> (#[trigger] entries[j]).token != token,
    ensures
        escrow_balance_in(entries, token) == 0,
    decreases entries.len(),
{
    if entries.len() > 0 {
        lemma_escrow_no_match(entries.drop_last(), token);
    }
}

/// Appending an entry sets its own pair's balance and leaves every other
/// pair's balance as it was.
proof fn lemma_account_push(
    entries: Seq<AccountBalance>,
    e: AccountBalance,
    owner: u64,
    token: u64,
)
    ensures
        account_balance_in(entries.push(e), owner, token) == if e.owner == owner && e.token
            == token {
            e.amount as int
        } else {
            account_balance_in(entries, owner, token)
        },
{
    assert(entries.push(e).drop_last() =~= entries);
}

proof fn lemma_escrow_push(entries: Seq<EscrowBalance>, e: EscrowBalance, token: u64)
    ensures
        escrow_balance_in(entries.push(e), token) == if e.token == token {
            e.amount as int
        } else {
            escrow_balance_in(entries, token)
        },
{
    assert(entries.push(e).drop_last() =~= entries);
}

/// Overwriting the last matching entry of a pair (with an entry for the same
/// pair) sets that pair's balance and leaves every other pair's balance as
/// it was.
proof fn lemma_account_update(
    entries: Seq<AccountBalance>,
    i: int,
    e: AccountBalance,
    owner: u64,
    token: u64,
)
    requires
        0 <= i < entries.len(),
        entries[i].owner == e.owner && entries[i].token == e.token,
        forall|j: int|
            i < j < entries.len() ==> !((#[trigger] entries[j]).owner == e.owner
                && entries[j].token == e.token),
    ensures
        account_balance_in(entries.update(i, e), owner, token) == if e.owner == owner && e.token
            == token {
            e.amount as int
        } else {
            account_balance_in(entries, owner, token)
        },
    decreases entries.len(),
{
    let u = entries.update(i, e);
    if i == entries.len() - 1 {
        assert(u.drop_last() =~= entries.drop_last());
    } else {
        assert(u.drop_last() =~= entries.drop_last().update(i, e));
        lemma_account_update(entries.drop_last(), i, e, owner, token);
    }
}

proof fn lemma_escrow_update(entries: Seq<EscrowBalance>, i: int, e: EscrowBalance, token: u64)
    requires
        0 <= i < entries.len(),
        entries[i].token == e.token,
        forall|j: int| i < j < entries.len() ==> (#[trigger] entries[j]).token != e.token,
    ensures
        escrow_balance_in(entries.update(i, e), token) == if e.token == token {
            e.amount as int
        } else {
            escrow_balance_in(entries, token)
        },
    decreases entries.len(),
{
    let u = entries.update(i, e);
    if i == entries.len() - 1 {
        assert(u.drop_last() =~= entries.drop_last());
    } else {
        assert(u.drop_last() =~= entries.drop_last().update(i, e));
        lemma_escrow_update(entries.drop_last(), i, e, token);
    }
}

/// The in-memory token ledger: account balances plus the custodied balance
/// of the escrow, one per token.
pub struct TokenLedger {
    accounts: Vec<AccountBalance>,
    escrows: Vec<EscrowBalance>,
}

impl TokenLedger {
    /// The balance of `owner` in `token`.
    pub closed spec fn balance_spec(self, owner: u64, token: u64) -> int {
        account_balance_in(self.accounts@, owner, token)
    }

    /// The custodied balance of the escrow in `token`.
    pub closed spec fn escrow_spec(self, token: u64) -> int {
        escrow_balance_in(self.escrows@, token)
    }

    /// Every recorded balance is non-negative.
    pub closed spec fn wf(self) -> bool {
        &&& forall|i: int| 0 <= i < self.accounts@.len() ==> 0 <= (#[trigger] self.accounts@[i]).amount
        &&& forall|i: int| 0 <= i < self.escrows@.len() ==> 0 <= (#[trigger] self.escrows@[i]).amount
    }

    /// Balances a well-formed ledger reports are non-negative, and they fit
    /// in the ledger's signed 128-bit amounts.
    pub proof fn lemma_nonneg(self, owner: u64, token: u64)
        requires
            self.wf(),
        ensures
            0 <= self.balance_spec(owner, token) <= i128::MAX,
            0 <= self.escrow_spec(token) <= i128::MAX,
    {
        lemma_account_nonneg(self.accounts@, owner, token);
        lemma_escrow_nonneg(self.escrows@, token);
    }

    /// An empty ledger: every balance is zero.
    pub fn new() -> (l: TokenLedger)
        ensures
            l.wf(),
            forall|o: u64, t: u64| #[trigger] l.balance_spec(o, t) == 0,
            forall|t: u64| #[trigger] l.escrow_spec(t) == 0,
    {
        TokenLedger { accounts: Vec::new(), escrows: Vec::new() }
    }

    /// The index of the last account entry for `(owner, token)`, if any.
    fn find_account(&self, owner: u64, token: u64) -> (r: Option<usize>)
        ensures
            match r {
                Some(i) => {
                    &&& i < self.accounts@.len()
                    &&& self.accounts@[i as int].owner == owner
                    &&& self.accounts@[i as int].token == token
                    &&& forall|j: int|
                        i < j < self.accounts@.len() ==> !((#[trigger] self.accounts@[j]).owner
                            == owner && self.accounts@[j].token == token)
                },
                None => forall|j: int|
                    0 <= j < self.accounts@.len() ==> !((#[trigger] self.accounts@[j]).owner
                        == owner && self.accounts@[j].token == token),
            },
    {
        let mut i: usize = self.accounts.len();
        while i > 0
            invariant
                i <= self.accounts@.len(),
                forall|j: int|
                    i <= j < self.accounts@.len() ==> !((#[trigger] self.accounts@[j]).owner
                        == owner && self.accounts@[j].token == token),
            decreases i,
        {
            i = i - 1;
            let e = self.accounts[i];
            if e.owner == owner && e.token == token {
                return Some(i);
            }
        }
        None
    }

    /// The index of the last escrow entry for `token`, if any.
    fn find_escrow(&self, token: u64) -> (r: Option<usize>)
        ensures
            match r {
                Some(i) => {
                    &&& i < self.escrows@.len()
                    &&& self.escrows@[i as int].token == token
                    &&& forall|j: int|
                        i < j < self.escrows@.len() ==> (#[trigger] self.escrows@[j]).token
                            != token
                },
                None => forall|j: int|
                    0 <= j < self.escrows@.len() ==> (#[trigger] self.escrows@[j]).token != token,
            },
    {
        let mut i: usize = self.escrows.len();
        while i > 0
            invariant
                i <= self.escrows@.len(),
                forall|j: int|
                    i <= j < self.escrows@.len() ==> (#[trigger] self.escrows@[j]).token != token,
            decreases i,
        {
            i = i - 1;
            let e = self.escrows[i];
            if e.token == token {
                return Some(i);
            }
        }
        None
    }

    /// The balance of `owner` in `token`.
    pub fn balance_of(&self, owner: u64, token: u64) -> (r: i128)
        ensures
            r == self.balance_spec(owner, token),
    {
        match self.find_account(owner, token) {
            Some(i) => {
                proof {
                    lemma_account_at_last_match(self.accounts@, i as int, owner, token);
                }
                self.accounts[i].amount
            },
            None => {
                proof {
                    lemma_account_no_match(self.accounts@, owner, token);
                }
                0
            },
        }
    }

    /// The custodied balance of the escrow in `token`.
    pub fn escrow_of(&self, token: u64) -> (r: i128)
        ensures
            r == self.escrow_spec(token),
    {
        match self.find_escrow(token) {
            Some(i) => {
                proof {
                    lemma_escrow_at_last_match(self.escrows@, i as int, token);
                }
                self.escrows[i].amount
            },
            None => {
                proof {
                    lemma_escrow_no_match(self.escrows@, token);
                }
                0
            },
        }
    }

    /// Sets one account balance, leaving every other balance untouched.
    fn set_account(&mut self, owner: u64, token: u64, amount: i128)
        requires
            old(self).wf(),
            0 <= amount,
        ensures
            final(self).wf(),
            final(self).balance_spec(owner, token) == amount,
            forall|o: u64, t: u64|
                !(o == owner && t == token) ==> #[trigger] final(self).balance_spec(o, t)
                    == old(self).balance_spec(o, t),
            forall|t: u64| #[trigger] final(self).escrow_spec(t) == old(self).escrow_spec(t),
    {
        let e = AccountBalance { owner, token, amount };
        match self.find_account(owner, token) {
            Some(i) => {
                self.accounts[i] = e;
                proof {
                    assert forall|o: u64, t: u64| #[trigger]
                        self.balance_spec(o, t) == if owner == o && token == t {
                            amount as int
                        } else {
                            old(self).balance_spec(o, t)
                        } by {
                        lemma_account_update(old(self).accounts@, i as int, e, o, t);
                    }
                }
            },
            None => {
                self.accounts.push(e);
                proof {
                    lemma_account_no_match(old(self).accounts@, owner, token);
                    assert forall|o: u64, t: u64| #[trigger]
                        self.balance_spec(o, t) == if owner == o && token == t {
                            amount as int
                        } else {
                            old(self).balance_spec(o, t)
                        } by {
                        lemma_account_push(old(self).accounts@, e, o, t);
                    }
                }
            },
        }
    }

    /// Sets one escrow balance, leaving every other balance untouched.
    fn set_escrow(&mut self, token: u64, amount: i128)
        requires
            old(self).wf(),
            0 <= amount,
        ensures
            final(self).wf(),
            final(self).escrow_spec(token) == amount,
            forall|t: u64|
                t != token ==> #[trigger] final(self).escrow_spec(t) == old(self).escrow_spec(t),
            forall|o: u64, t: u64| #[trigger]
                final(self).balance_spec(o, t) == old(self).balance_spec(o, t),
    {
        let e = EscrowBalance { token, amount };
        match self.find_escrow(token) {
            Some(i) => {
                self.escrows[i] = e;
                proof {
                    assert forall|t: u64| #[trigger]
                        self.escrow_spec(t) == if token == t {
                            amount as int
                        } else {
                            old(self).escrow_spec(t)
                        } by {
                        lemma_escrow_update(old(self).escrows@, i as int, e, t);
                    }
                }
            },
            None => {
                self.escrows.push(e);
                proof {
                    lemma_escrow_no_match(old(self).escrows@, token);
                    assert forall|t: u64| #[trigger]
                        self.escrow_spec(t) == if token == t {
                            amount as int
                        } else {
                            old(self).escrow_spec(t)
                        } by {
                        lemma_escrow_push(old(self).escrows@, e, t);
                    }
                }
            },
        }
    }

    /// Mints `amount` into `owner`'s balance. Fails exactly when the balance
    /// would no longer fit; on failure nothing changes.
    pub fn credit(&mut self, owner: u64, token: u64, amount: i128) -> (r: Result<(), ()>)
        requires
            old(self).wf(),
            0 <= amount,
        ensures
            final(self).wf(),
            r is Ok <==> old(self).balance_spec(owner, token) + amount <= i128::MAX,
            r is Ok ==> final(self).balance_spec(owner, token) == old(self).balance_spec(
                owner,
                token,
            ) + amount,
            r is Err ==> *final(self) == *old(self),
            forall|o: u64, t: u64|
                !(o == owner && t == token) ==> #[trigger] final(self).balance_spec(o, t)
                    == old(self).balance_spec(o, t),
            forall|t: u64| #[trigger] final(self).escrow_spec(t) == old(self).escrow_spec(t),
    {
        let balance = self.balance_of(owner, token);
        proof {
            self.lemma_nonneg(owner, token);
        }
        if balance > i128::MAX - amount {
            return Err(());
        }
        self.set_account(owner, token, balance + amount);
        Ok(())
    }

    /// Moves `amount` from `owner`'s balance into custody. Fails exactly
    /// when the balance cannot pay it or custody would no longer fit; on
    /// failure nothing changes.
    pub fn deposit(&mut self, owner: u64, token: u64, amount: i128) -> (r: Result<(), ()>)
        requires
            old(self).wf(),
            0 <= amount,
        ensures
            final(self).wf(),
            r is Ok <==> (amount <= old(self).balance_spec(owner, token) && old(self).escrow_spec(
                token,
            ) + amount <= i128::MAX),
            r is Ok ==> final(self).balance_spec(owner, token) == old(self).balance_spec(
                owner,
                token,
            ) - amount && final(self).escrow_spec(token) == old(self).escrow_spec(token) + amount,
            r is Err ==> *final(self) == *old(self),
            forall|o: u64, t: u64|
                !(o == owner && t == token) ==> #[trigger] final(self).balance_spec(o, t)
                    == old(self).balance_spec(o, t),
            forall|t: u64|
                t != token ==> #[trigger] final(self).escrow_spec(t) == old(self).escrow_spec(t),
    {
        let balance = self.balance_of(owner, token);
        if balance < amount {
            return Err(());
        }
        let escrow = self.escrow_of(token);
        proof {
            self.lemma_nonneg(owner, token);
        }
        if escrow > i128::MAX - amount {
            return Err(());
        }
        self.set_account(owner, token, balance - amount);
        self.set_escrow(token, escrow + amount);
        Ok(())
    }

    /// Moves `amount` out of custody into `owner`'s balance. Fails exactly
    /// when custody cannot pay it or the balance would no longer fit; on
    /// failure nothing changes.
    pub fn withdraw(&mut self, owner: u64, token: u64, amount: i128) -> (r: Result<(), ()>)
        requires
            old(self).wf(),
            0 <= amount,
        ensures
            final(self).wf(),
            r is Ok <==> (amount <= old(self).escrow_spec(token) && old(self).balance_spec(
                owner,
                token,
            ) + amount <= i128::MAX),
            r is Ok ==> final(self).balance_spec(owner, token) == old(self).balance_spec(
                owner,
                token,
            ) + amount && final(self).escrow_spec(token) == old(self).escrow_spec(token) - amount,
            r is Err ==> *final(self) == *old(self),
            forall|o: u64, t: u64|
                !(o == owner && t == token) ==> #[trigger] final(self).balance_spec(o, t)
                    == old(self).balance_spec(o, t),
            forall|t: u64|
                t != token ==> #[trigger] final(self).escrow_spec(t) == old(self).escrow_spec(t),
    {
        let escrow = self.escrow_of(token);
        if escrow < amount {
            return Err(());
        }
        let balance = self.balance_of(owner, token);
        proof {
            self.lemma_nonneg(owner, token);
        }
        if balance > i128::MAX - amount {
            return Err(());
        }
        self.set_escrow(token, escrow - amount);
        self.set_account(owner, token, balance + amount);
        Ok(())
    }
}

} // verus!
