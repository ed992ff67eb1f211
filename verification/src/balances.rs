use vstd::prelude::*;
use vstd::pervasive::VecAdditionalExecFns;
use crate::account::AccountId;

verus! {

/// One account's row in the balance table.
struct BalanceEntry {
    account: AccountId,
    amount: u128,
}

/// The balance table: a finite map from accounts to amounts, where an absent
/// account holds 0.
///
/// It is stored as a vector of rows whose accounts are pairwise distinct, so
/// that the total held by all accounts is simply the sum of the rows — the
/// quantity the ledger's conservation invariant speaks of.
pub struct Balances {
    entries: Vec<BalanceEntry>,
}

impl Balances {
    /// The amount the last row for `account` holds, or 0 if there is none.
    /// With pairwise distinct accounts this is the amount of the one row
    /// for `account`.
    spec fn seq_get(s: Seq<BalanceEntry>, account: AccountId) -> u128
        decreases s.len(),
    {
        if s.len() == 0 {
            0
        } else if s.last().account == account {
            s.last().amount
        } else {
            Self::seq_get(s.drop_last(), account)
        }
    }

    /// The total amount held across all rows.
    spec fn seq_sum(s: Seq<BalanceEntry>) -> int
        decreases s.len(),
    {
        if s.len() == 0 {
            0
        } else {
            Self::seq_sum(s.drop_last()) + s.last().amount
        }
    }

    /// Whether some row is for `account`.
    spec fn seq_has(s: Seq<BalanceEntry>, account: AccountId) -> bool {
        exists|i: int| 0 <= i < s.len() && s[i].account == account
    }

    /// No two rows are for the same account.
    spec fn distinct_accounts(s: Seq<BalanceEntry>) -> bool {
        forall|i: int, j: int| 0 <= i < j < s.len() ==> s[i].account != s[j].account
    }

    /// Well-formedness: each account has at most one row.
    pub closed spec fn wf(self) -> bool {
        Self::distinct_accounts(self.entries@)
    }

    /// The amount `account` holds; 0 for an account never written.
    pub closed spec fn spec_get(self, account: AccountId) -> u128 {
        Self::seq_get(self.entries@, account)
    }

    /// The total amount held across all accounts.
    pub closed spec fn spec_sum(self) -> int {
        Self::seq_sum(self.entries@)
    }

    proof fn lemma_seq_sum_nonneg(s: Seq<BalanceEntry>)
        ensures
            Self::seq_sum(s) >= 0,
        decreases s.len(),
    {
        if s.len() > 0 {
            Self::lemma_seq_sum_nonneg(s.drop_last());
        }
    }

    proof fn lemma_seq_get_le_sum(s: Seq<BalanceEntry>, account: AccountId)
        ensures
            Self::seq_get(s, account) <= Self::seq_sum(s),
        decreases s.len(),
    {
        if s.len() > 0 {
            Self::lemma_seq_sum_nonneg(s.drop_last());
            Self::lemma_seq_get_le_sum(s.drop_last(), account);
        }
    }

    /// No single account holds more than the total held by all accounts.
    pub proof fn lemma_get_le_sum(self, account: AccountId)
        ensures
            self.spec_get(account) <= self.spec_sum(),
    {
        Self::lemma_seq_get_le_sum(self.entries@, account);
    }

    /// An account with no row holds 0.
    proof fn lemma_seq_get_absent(s: Seq<BalanceEntry>, account: AccountId)
        requires
            !Self::seq_has(s, account),
        ensures
            Self::seq_get(s, account) == 0,
        decreases s.len(),
    {
        if s.len() > 0 {
            assert(s.last() == s[s.len() - 1]);
            if Self::seq_has(s.drop_last(), account) {
                let i = choose|i: int|
                    0 <= i < s.drop_last().len() && s.drop_last()[i].account == account;
                assert(s[i].account == account);
                assert(false);
            }
            Self::lemma_seq_get_absent(s.drop_last(), account);
        }
    }

    /// Replacing row `i` with a row for the same account rewrites that
    /// account's amount, leaves every other account's amount alone, and
    /// shifts the total by the difference.
    proof fn lemma_seq_update(s: Seq<BalanceEntry>, i: int, e: BalanceEntry)
        requires
            0 <= i < s.len(),
            Self::distinct_accounts(s),
            s[i].account == e.account,
        ensures
            Self::seq_get(s.update(i, e), e.account) == e.amount,
            forall|b: AccountId|
                b != e.account ==> Self::seq_get(s.update(i, e), b) == Self::seq_get(s, b),
            Self::seq_sum(s.update(i, e)) == Self::seq_sum(s) - s[i].amount + e.amount,
            Self::distinct_accounts(s.update(i, e)),
            Self::seq_get(s, e.account) == s[i].amount,
        decreases s.len(),
    {
        let t = s.update(i, e);
        if i == s.len() - 1 {
            assert(t.last() == e);
            assert(t.drop_last() =~= s.drop_last());
            assert(s.last() == s[i]);
            assert forall|b: AccountId|
                b != e.account implies Self::seq_get(t, b) == Self::seq_get(s, b) by {
                assert(Self::seq_get(t, b) == Self::seq_get(s.drop_last(), b));
                assert(Self::seq_get(s, b) == Self::seq_get(s.drop_last(), b));
            }
        } else {
            assert(t.last() == s.last());
            assert(t.drop_last() =~= s.drop_last().update(i, e));
            assert(Self::distinct_accounts(s.drop_last())) by {
                assert forall|k: int, l: int|
                    0 <= k < l < s.drop_last().len() implies
                    s.drop_last()[k].account != s.drop_last()[l].account by {
                    assert(s.drop_last()[k] == s[k]);
                    assert(s.drop_last()[l] == s[l]);
                }
            }
            assert(s.drop_last()[i] == s[i]);
            Self::lemma_seq_update(s.drop_last(), i, e);
            assert(s.last() == s[s.len() - 1]);
            assert(s.last().account != e.account);
            assert forall|b: AccountId|
                b != e.account implies Self::seq_get(t, b) == Self::seq_get(s, b) by {
                if s.last().account != b {
                    assert(Self::seq_get(t, b) == Self::seq_get(t.drop_last(), b));
                    assert(Self::seq_get(s, b) == Self::seq_get(s.drop_last(), b));
                }
            }
        }
        assert forall|k: int, l: int|
            0 <= k < l < t.len() implies t[k].account != t[l].account by {
            assert(t[k].account == s[k].account);
            assert(t[l].account == s[l].account);
        }
    }

    /// Appending a row for a fresh account gives that account its amount,
    /// leaves every other account's amount alone, and adds the amount to
    /// the total.
    proof fn lemma_seq_push(s: Seq<BalanceEntry>, e: BalanceEntry)
        requires
            Self::distinct_accounts(s),
            !Self::seq_has(s, e.account),
        ensures
            Self::seq_get(s.push(e), e.account) == e.amount,
            forall|b: AccountId|
                b != e.account ==> Self::seq_get(s.push(e), b) == Self::seq_get(s, b),
            Self::seq_sum(s.push(e)) == Self::seq_sum(s) + e.amount,
            Self::distinct_accounts(s.push(e)),
    {
        let t = s.push(e);
        assert(t.last() == e);
        assert(t.drop_last() =~= s);
        assert forall|b: AccountId|
            b != e.account implies Self::seq_get(t, b) == Self::seq_get(s, b) by {
            assert(Self::seq_get(t, b) == Self::seq_get(t.drop_last(), b));
        }
        assert forall|k: int, l: int|
            0 <= k < l < t.len() implies t[k].account != t[l].account by {
            assert(t[k] == s[k]);
            if l == s.len() {
                if s[k].account == e.account {
                    assert(Self::seq_has(s, e.account));
                }
            } else {
                assert(t[l] == s[l]);
            }
        }
    }

    /// An empty table: every account holds 0 and the total is 0.
    pub fn new() -> (table: Balances)
        ensures
            table.wf(),
            table.spec_sum() == 0,
            forall|a: AccountId| table.spec_get(a) == 0,
    {
        let table = Balances { entries: Vec::new() };
        proof {
            assert forall|a: AccountId| table.spec_get(a) == 0 by {
                assert(Self::seq_get(table.entries@, a) == 0);
            }
        }
        table
    }

    /// The amount `account` holds.
    pub fn get(&self, account: AccountId) -> (amount: u128)
        ensures
            amount == self.spec_get(account),
    {
        let mut i: usize = self.entries.len();
        proof {
            assert(self.entries@.take(i as int) =~= self.entries@);
        }
        while i > 0
            invariant
                i <= self.entries.len(),
                Self::seq_get(self.entries@, account)
                    == Self::seq_get(self.entries@.take(i as int), account),
            decreases i,
        {
            proof {
                assert(self.entries@.take(i as int).last() == self.entries@[i - 1]);
                assert(self.entries@.take(i as int).drop_last()
                    =~= self.entries@.take(i as int - 1));
            }
            if self.entries[i - 1].account == account {
                return self.entries[i - 1].amount;
            }
            i = i - 1;
        }
        proof {
            assert(self.entries@.take(0) =~= Seq::<BalanceEntry>::empty());
        }
        0
    }

    /// The index of the row for `account`, if it has one.
    fn find_index(&self, account: AccountId) -> (found: Option<usize>)
        ensures
            match found {
                Some(i) => i < self.entries@.len() && self.entries@[i as int].account == account,
                None => !Self::seq_has(self.entries@, account),
            },
    {
        let mut i: usize = 0;
        while i < self.entries.len()
            invariant
                i <= self.entries.len(),
                forall|j: int| 0 <= j < i ==> self.entries@[j].account != account,
            decreases self.entries.len() - i,
        {
            if self.entries[i].account == account {
                return Some(i);
            }
            i = i + 1;
        }
        None
    }

    /// Make `account` hold exactly `amount`, touching no other account.
    pub fn set(&mut self, account: AccountId, amount: u128)
        requires
            old(self).wf(),
        ensures
            final(self).wf(),
            final(self).spec_get(account) == amount,
            forall|b: AccountId| b != account ==> final(self).spec_get(b) == old(self).spec_get(b),
            final(self).spec_sum() == old(self).spec_sum() - old(self).spec_get(account) + amount,
    {
        let row = BalanceEntry { account, amount };
        match self.find_index(account) {
            Some(i) => {
                proof {
                    Self::lemma_seq_update(self.entries@, i as int, row);
                }
                self.entries.set(i, row);
            }
            None => {
                proof {
                    Self::lemma_seq_get_absent(self.entries@, account);
                    Self::lemma_seq_push(self.entries@, row);
                }
                self.entries.push(row);
            }
        }
    }
}

} // verus!
