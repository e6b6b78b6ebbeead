//! The pool-share ledger: per-holder balances of the pool-share claim
//! token, with mint, burn and transfer primitives.
//!
//! The ledger is a sequence of `(holder, balance)` entries with distinct
//! holders and non-negative balances.  Its central law: every primitive
//! changes the recorded total exactly by the amount minted or burned, so the
//! pool's `TotalShares` can be kept equal to the sum of all balances.

use vstd::prelude::*;

verus! {

/// The total of all balances recorded in `s`.
pub open spec fn ledger_sum(s: Seq<(u64, i128)>) -> int
    decreases s.len(),
{
    if s.len() == 0 {
        0
    } else {
        s[0].1 + ledger_sum(s.drop_first())
    }
}

/// The balance `s` records for holder `id`: the first entry with that
/// holder, or zero when there is none.
pub open spec fn ledger_balance(s: Seq<(u64, i128)>, id: u64) -> int
    decreases s.len(),
{
    if s.len() == 0 {
        0
    } else if s[0].0 == id {
        s[0].1 as int
    } else {
        ledger_balance(s.drop_first(), id)
    }
}

/// No holder appears twice.
pub open spec fn keys_unique(s: Seq<(u64, i128)>) -> bool {
    forall|i: int, j: int| 0 <= i < j < s.len() ==> s[i].0 != s[j].0
}

/// No balance is negative.
pub open spec fn all_nonneg(s: Seq<(u64, i128)>) -> bool {
    forall|i: int| 0 <= i < s.len() ==> s[i].1 >= 0
}

pub proof fn lemma_sum_update(s: Seq<(u64, i128)>, i: int, v: (u64, i128))
    requires
        0 <= i < s.len(),
    ensures
        ledger_sum(s.update(i, v)) == ledger_sum(s) - s[i].1 + v.1,
    decreases s.len(),
{
    let t = s.update(i, v);
    if i == 0 {
        assert(t.drop_first() =~= s.drop_first());
    } else {
        assert(t.drop_first() =~= s.drop_first().update(i - 1, v));
        lemma_sum_update(s.drop_first(), i - 1, v);
    }
}

pub proof fn lemma_sum_push(s: Seq<(u64, i128)>, v: (u64, i128))
    ensures
        ledger_sum(s.push(v)) == ledger_sum(s) + v.1,
    decreases s.len(),
{
    let t = s.push(v);
    if s.len() == 0 {
        assert(t[0] == v);
        assert(t.drop_first() =~= s);
    } else {
        assert(t[0] == s[0]);
        assert(t.drop_first() =~= s.drop_first().push(v));
        lemma_sum_push(s.drop_first(), v);
    }
}

pub proof fn lemma_balance_found(s: Seq<(u64, i128)>, i: int, id: u64)
    requires
        0 <= i < s.len(),
        s[i].0 == id,
        forall|j: int| 0 <= j < i ==> s[j].0 != id,
    ensures
        ledger_balance(s, id) == s[i].1,
    decreases s.len(),
{
    if i > 0 {
        assert(forall|j: int| 0 <= j < i - 1 ==> (#[trigger] s.drop_first()[j]).0 != id);
        lemma_balance_found(s.drop_first(), i - 1, id);
    }
}

pub proof fn lemma_balance_absent(s: Seq<(u64, i128)>, id: u64)
    requires
        forall|j: int| 0 <= j < s.len() ==> s[j].0 != id,
    ensures
        ledger_balance(s, id) == 0,
    decreases s.len(),
{
    if s.len() > 0 {
        lemma_balance_absent(s.drop_first(), id);
    }
}

pub proof fn lemma_balance_update_one(s: Seq<(u64, i128)>, i: int, v: (u64, i128), id: u64)
    requires
        0 <= i < s.len(),
        v.0 == s[i].0,
        forall|j: int| 0 <= j < i ==> s[j].0 != s[i].0,
    ensures
        ledger_balance(s.update(i, v), id) == if id == v.0 {
            v.1 as int
        } else {
            ledger_balance(s, id)
        },
    decreases s.len(),
{
    let t = s.update(i, v);
    if i == 0 {
        assert(t.drop_first() =~= s.drop_first());
    } else {
        assert(t.drop_first() =~= s.drop_first().update(i - 1, v));
        assert(forall|j: int|
            0 <= j < i - 1 ==> (#[trigger] s.drop_first()[j]).0 != s.drop_first()[i - 1].0);
        lemma_balance_update_one(s.drop_first(), i - 1, v, id);
    }
}

pub proof fn lemma_balance_push_one(s: Seq<(u64, i128)>, v: (u64, i128), id: u64)
    requires
        forall|j: int| 0 <= j < s.len() ==> s[j].0 != v.0,
    ensures
        ledger_balance(s.push(v), id) == if id == v.0 {
            v.1 as int
        } else {
            ledger_balance(s, id)
        },
    decreases s.len(),
{
    let t = s.push(v);
    if s.len() == 0 {
        assert(t[0] == v);
        assert(t.drop_first() =~= s);
    } else {
        assert(t[0] == s[0]);
        assert(t.drop_first() =~= s.drop_first().push(v));
        assert(forall|j: int| 0 <= j < s.len() - 1 ==> (#[trigger] s.drop_first()[j]).0 != v.0);
        lemma_balance_push_one(s.drop_first(), v, id);
    }
}

pub proof fn lemma_sum_nonneg(s: Seq<(u64, i128)>)
    requires
        all_nonneg(s),
    ensures
        ledger_sum(s) >= 0,
    decreases s.len(),
{
    if s.len() > 0 {
        assert(all_nonneg(s.drop_first()));
        lemma_sum_nonneg(s.drop_first());
    }
}

/// A recorded balance always lies in the signed 128-bit range.
pub proof fn lemma_balance_in_range(s: Seq<(u64, i128)>, id: u64)
    ensures
        i128::MIN <= ledger_balance(s, id) <= i128::MAX,
    decreases s.len(),
{
    if s.len() > 0 {
        lemma_balance_in_range(s.drop_first(), id);
    }
}

/// Each single balance is at most the total of all balances.
pub proof fn lemma_sum_ge_balance(s: Seq<(u64, i128)>, id: u64)
    requires
        all_nonneg(s),
    ensures
        0 <= ledger_balance(s, id),
        ledger_balance(s, id) <= ledger_sum(s),
    decreases s.len(),
{
    if s.len() > 0 {
        assert(all_nonneg(s.drop_first()));
        lemma_sum_nonneg(s.drop_first());
        lemma_sum_ge_balance(s.drop_first(), id);
    }
}

/// Per-holder balances of the pool-share token.
pub struct ShareLedger {
    accounts: Vec<(u64, i128)>,
}

impl View for ShareLedger {
    type V = Seq<(u64, i128)>;

    closed spec fn view(&self) -> Seq<(u64, i128)> {
        self.accounts@
    }
}

impl ShareLedger {
    /// Distinct holders, no negative balance.
    pub open spec fn wf(self) -> bool {
        keys_unique(self@) && all_nonneg(self@)
    }

    /// An empty ledger: nobody holds anything.
    pub fn new() -> (r: ShareLedger)
        ensures
            r.wf(),
            r@.len() == 0,
            ledger_sum(r@) == 0,
            forall|id: u64| ledger_balance(r@, id) == 0,
    {
        ShareLedger { accounts: Vec::new() }
    }

    /// A ledger holding exactly the given entries.
    pub fn from_entries(entries: Vec<(u64, i128)>) -> (r: ShareLedger)
        requires
            keys_unique(entries@),
            all_nonneg(entries@),
        ensures
            r.wf(),
            r@ == entries@,
    {
        ShareLedger { accounts: entries }
    }

    /// A copy of every `(holder, balance)` entry, for callers that must
    /// persist the ledger.
    pub fn entries(&self) -> (r: Vec<(u64, i128)>)
        ensures
            r@ == self@,
    {
        let n = self.accounts.len();
        let mut out: Vec<(u64, i128)> = Vec::new();
        let mut i: usize = 0;
        while i < n
            invariant
                i <= n,
                n == self@.len(),
                out@ == self@.take(i as int),
            decreases n - i,
        {
            out.push(self.accounts[i]);
            proof {
                assert(self@.take(i as int).push(self@[i as int]) =~= self@.take(i + 1 as int));
            }
            i = i + 1;
        }
        proof {
            assert(self@.take(n as int) =~= self@);
        }
        out
    }

    fn find_index(&self, id: u64) -> (r: Option<usize>)
        ensures
            match r {
                Some(i) => i < self@.len() && self@[i as int].0 == id && forall|j: int|
                    0 <= j < i ==> self@[j].0 != id,
                None => forall|j: int| 0 <= j < self@.len() ==> self@[j].0 != id,
            },
    {
        let n = self.accounts.len();
        let mut i: usize = 0;
        while i < n
            invariant
                i <= n,
                n == self@.len(),
                forall|j: int| 0 <= j < i ==> self@[j].0 != id,
            decreases n - i,
        {
            if self.accounts[i].0 == id {
                return Some(i);
            }
            i = i + 1;
        }
        None
    }

    /// The balance held by `id`.
    pub fn balance_of(&self, id: u64) -> (r: i128)
        ensures
            r == ledger_balance(self@, id),
    {
        match self.find_index(id) {
            Some(i) => {
                proof {
                    lemma_balance_found(self@, i as int, id);
                }
                self.accounts[i].1
            },
            None => {
                proof {
                    lemma_balance_absent(self@, id);
                }
                0
            },
        }
    }

    /// Creates `amount` new shares for `to`.
    pub fn mint(&mut self, to: u64, amount: i128)
        requires
            old(self).wf(),
            0 <= amount,
            ledger_balance(old(self)@, to) + amount <= i128::MAX,
        ensures
            final(self).wf(),
            ledger_balance(final(self)@, to) == ledger_balance(old(self)@, to) + amount,
            forall|id: u64|
                id != to ==> ledger_balance(final(self)@, id) == ledger_balance(old(self)@, id),
            ledger_sum(final(self)@) == ledger_sum(old(self)@) + amount,
    {
        let ghost s = self@;
        match self.find_index(to) {
            Some(i) => {
                proof {
                    lemma_balance_found(s, i as int, to);
                }
                let cur = self.accounts[i].1;
                let newv = cur + amount;
                self.accounts[i] = (to, newv);
                proof {
                    lemma_sum_update(s, i as int, (to, newv));
                    assert forall|id: u64|
                        ledger_balance(self@, id) == if id == to {
                            newv as int
                        } else {
                            ledger_balance(s, id)
                        } by {
                        lemma_balance_update_one(s, i as int, (to, newv), id);
                    }
                    assert(keys_unique(self@));
                    assert(all_nonneg(self@));
                }
            },
            None => {
                proof {
                    lemma_balance_absent(s, to);
                }
                self.accounts.push((to, amount));
                proof {
                    lemma_sum_push(s, (to, amount));
                    assert forall|id: u64|
                        ledger_balance(self@, id) == if id == to {
                            amount as int
                        } else {
                            ledger_balance(s, id)
                        } by {
                        lemma_balance_push_one(s, (to, amount), id);
                    }
                    assert(keys_unique(self@));
                    assert(all_nonneg(self@));
                }
            },
        }
    }

    /// Destroys `amount` of the shares held by `from`.
    pub fn burn(&mut self, from: u64, amount: i128)
        requires
            old(self).wf(),
            0 <= amount,
            amount <= ledger_balance(old(self)@, from),
        ensures
            final(self).wf(),
            ledger_balance(final(self)@, from) == ledger_balance(old(self)@, from) - amount,
            forall|id: u64|
                id != from ==> ledger_balance(final(self)@, id) == ledger_balance(old(self)@, id),
            ledger_sum(final(self)@) == ledger_sum(old(self)@) - amount,
    {
        let ghost s = self@;
        match self.find_index(from) {
            Some(i) => {
                proof {
                    lemma_balance_found(s, i as int, from);
                }
                let cur = self.accounts[i].1;
                let newv = cur - amount;
                self.accounts[i] = (from, newv);
                proof {
                    lemma_sum_update(s, i as int, (from, newv));
                    assert forall|id: u64|
                        ledger_balance(self@, id) == if id == from {
                            newv as int
                        } else {
                            ledger_balance(s, id)
                        } by {
                        lemma_balance_update_one(s, i as int, (from, newv), id);
                    }
                    assert(keys_unique(self@));
                    assert(all_nonneg(self@));
                }
            },
            None => {
                proof {
                    lemma_balance_absent(s, from);
                }
            },
        }
    }

    /// Moves `amount` of shares from `from` to `to`; the total is untouched.
    pub fn transfer(&mut self, from: u64, to: u64, amount: i128)
        requires
            old(self).wf(),
            0 <= amount,
            amount <= ledger_balance(old(self)@, from),
            from != to ==> ledger_balance(old(self)@, to) + amount <= i128::MAX,
        ensures
            final(self).wf(),
            ledger_sum(final(self)@) == ledger_sum(old(self)@),
            from != to ==> ledger_balance(final(self)@, from) == ledger_balance(old(self)@, from)
                - amount,
            from != to ==> ledger_balance(final(self)@, to) == ledger_balance(old(self)@, to)
                + amount,
            forall|id: u64|
                id != from && id != to ==> ledger_balance(final(self)@, id) == ledger_balance(
                    old(self)@,
                    id,
                ),
            from == to ==> forall|id: u64|
                ledger_balance(final(self)@, id) == ledger_balance(old(self)@, id),
    {
        proof {
            lemma_balance_in_range(self@, from);
        }
        self.burn(from, amount);
        self.mint(to, amount);
    }
}

} // verus!
