use vstd::prelude::*;
use vstd::pervasive::VecAdditionalExecFns;
use crate::account::AccountId;

verus! {

/// One (owner, spender) pair's row in the allowance table.
struct AllowanceEntry {
    owner: AccountId,
    spender: AccountId,
    amount: u128,
}

/// The allowance table: a finite map from (owner, spender) pairs to amounts,
/// where an absent pair holds 0. Each pair is its own key: nothing an owner
/// grants one spender is shared with another.
///
/// It is stored as a vector of rows whose (owner, spender) pairs are
/// pairwise distinct.
pub struct Allowances {
    entries: Vec<AllowanceEntry>,
}

impl Allowances {
    /// Whether row `e` is keyed by (`owner`, `spender`).
    spec fn keyed(e: AllowanceEntry, owner: AccountId, spender: AccountId) -> bool {
        e.owner == owner && e.spender == spender
    }

    /// The amount the last row for (`owner`, `spender`) holds, or 0 if there
    /// is none. With pairwise distinct pairs this is the amount of the one
    /// row for the pair.
    spec fn seq_get(s: Seq<AllowanceEntry>, owner: AccountId, spender: AccountId) -> u128
        decreases s.len(),
    {
        if s.len() == 0 {
            0
        } else if Self::keyed(s.last(), owner, spender) {
            s.last().amount
        } else {
            Self::seq_get(s.drop_last(), owner, spender)
        }
    }

    /// Whether some row is for (`owner`, `spender`).
    spec fn seq_has(s: Seq<AllowanceEntry>, owner: AccountId, spender: AccountId) -> bool {
        exists|i: int| 0 <= i < s.len() && Self::keyed(s[i], owner, spender)
    }

    /// No two rows share an (owner, spender) pair.
    spec fn distinct_pairs(s: Seq<AllowanceEntry>) -> bool {
        forall|i: int, j: int|
            0 <= i < j < s.len() ==> !(s[i].owner == s[j].owner && s[i].spender == s[j].spender)
    }

    /// Well-formedness: each (owner, spender) pair has at most one row.
    pub closed spec fn wf(self) -> bool {
        Self::distinct_pairs(self.entries@)
    }

    /// The amount `owner` has granted `spender`; 0 for a pair never written.
    pub closed spec fn spec_get(self, owner: AccountId, spender: AccountId) -> u128 {
        Self::seq_get(self.entries@, owner, spender)
    }

    /// Replacing row `i` with a row for the same pair rewrites that pair's
    /// amount and leaves every other pair's amount alone.
    proof fn lemma_seq_update(s: Seq<AllowanceEntry>, i: int, e: AllowanceEntry)
        requires
            0 <= i < s.len(),
            Self::distinct_pairs(s),
            s[i].owner == e.owner,
            s[i].spender == e.spender,
        ensures
            Self::seq_get(s.update(i, e), e.owner, e.spender) == e.amount,
            forall|o: AccountId, p: AccountId|
                !(o == e.owner && p == e.spender)
                    ==> Self::seq_get(s.update(i, e), o, p) == Self::seq_get(s, o, p),
            Self::distinct_pairs(s.update(i, e)),
        decreases s.len(),
    {
        let t = s.update(i, e);
        if i == s.len() - 1 {
            assert(t.last() == e);
            assert(t.drop_last() =~= s.drop_last());
            assert(s.last() == s[i]);
            assert forall|o: AccountId, p: AccountId|
                !(o == e.owner && p == e.spender) implies
                Self::seq_get(t, o, p) == Self::seq_get(s, o, p) by {
                assert(Self::seq_get(t, o, p) == Self::seq_get(s.drop_last(), o, p));
                assert(Self::seq_get(s, o, p) == Self::seq_get(s.drop_last(), o, p));
            }
        } else {
            assert(t.last() == s.last());
            assert(t.drop_last() =~= s.drop_last().update(i, e));
            assert(Self::distinct_pairs(s.drop_last())) by {
                assert forall|k: int, l: int|
                    0 <= k < l < s.drop_last().len() implies
                    !(s.drop_last()[k].owner == s.drop_last()[l].owner
                        && s.drop_last()[k].spender == s.drop_last()[l].spender) by {
                    assert(s.drop_last()[k] == s[k]);
                    assert(s.drop_last()[l] == s[l]);
                }
            }
            assert(s.drop_last()[i] == s[i]);
            Self::lemma_seq_update(s.drop_last(), i, e);
            assert(s.last() == s[s.len() - 1]);
            assert(!(s.last().owner == e.owner && s.last().spender == e.spender));
            assert forall|o: AccountId, p: AccountId|
                !(o == e.owner && p == e.spender) implies
                Self::seq_get(t, o, p) == Self::seq_get(s, o, p) by {
                if !Self::keyed(s.last(), o, p) {
                    assert(Self::seq_get(t, o, p) == Self::seq_get(t.drop_last(), o, p));
                    assert(Self::seq_get(s, o, p) == Self::seq_get(s.drop_last(), o, p));
                }
            }
        }
        assert forall|k: int, l: int|
            0 <= k < l < t.len() implies
            !(t[k].owner == t[l].owner && t[k].spender == t[l].spender) by {
            assert(t[k].owner == s[k].owner && t[k].spender == s[k].spender);
            assert(t[l].owner == s[l].owner && t[l].spender == s[l].spender);
        }
    }

    /// Appending a row for a fresh pair gives that pair its amount and
    /// leaves every other pair's amount alone.
    proof fn lemma_seq_push(s: Seq<AllowanceEntry>, e: AllowanceEntry)
        requires
            Self::distinct_pairs(s),
            !Self::seq_has(s, e.owner, e.spender),
        ensures
            Self::seq_get(s.push(e), e.owner, e.spender) == e.amount,
            forall|o: AccountId, p: AccountId|
                !(o == e.owner && p == e.spender)
                    ==> Self::seq_get(s.push(e), o, p) == Self::seq_get(s, o, p),
            Self::distinct_pairs(s.push(e)),
    {
        let t = s.push(e);
        assert(t.last() == e);
        assert(t.drop_last() =~= s);
        assert forall|o: AccountId, p: AccountId|
            !(o == e.owner && p == e.spender) implies
            Self::seq_get(t, o, p) == Self::seq_get(s, o, p) by {
            assert(Self::seq_get(t, o, p) == Self::seq_get(t.drop_last(), o, p));
        }
        assert forall|k: int, l: int|
            0 <= k < l < t.len() implies
            !(t[k].owner == t[l].owner && t[k].spender == t[l].spender) by {
            assert(t[k] == s[k]);
            if l == s.len() {
                if s[k].owner == e.owner && s[k].spender == e.spender {
                    assert(Self::keyed(s[k], e.owner, e.spender));
                    assert(Self::seq_has(s, e.owner, e.spender));
                }
            } else {
                assert(t[l] == s[l]);
            }
        }
    }

    /// An empty table: every pair holds 0.
    pub fn new() -> (table: Allowances)
        ensures
            table.wf(),
            forall|o: AccountId, p: AccountId| table.spec_get(o, p) == 0,
    {
        let table = Allowances { entries: Vec::new() };
        proof {
            assert forall|o: AccountId, p: AccountId| table.spec_get(o, p) == 0 by {
                assert(Self::seq_get(table.entries@, o, p) == 0);
            }
        }
        table
    }

    /// The amount `owner` has granted `spender`.
    pub fn get(&self, owner: AccountId, spender: AccountId) -> (amount: u128)
        ensures
            amount == self.spec_get(owner, spender),
    {
        let mut i: usize = self.entries.len();
        proof {
            assert(self.entries@.take(i as int) =~= self.entries@);
        }
        while i > 0
            invariant
                i <= self.entries.len(),
                Self::seq_get(self.entries@, owner, spender)
                    == Self::seq_get(self.entries@.take(i as int), owner, spender),
            decreases i,
        {
            proof {
                assert(self.entries@.take(i as int).last() == self.entries@[i - 1]);
                assert(self.entries@.take(i as int).drop_last()
                    =~= self.entries@.take(i as int - 1));
            }
            if self.entries[i - 1].owner == owner && self.entries[i - 1].spender == spender {
                return self.entries[i - 1].amount;
            }
            i = i - 1;
        }
        proof {
            assert(self.entries@.take(0) =~= Seq::<AllowanceEntry>::empty());
        }
        0
    }

    /// The index of the row for (`owner`, `spender`), if the pair has one.
    fn find_index(&self, owner: AccountId, spender: AccountId) -> (found: Option<usize>)
        ensures
            match found {
                Some(i) => i < self.entries@.len()
                    && Self::keyed(self.entries@[i as int], owner, spender),
                None => !Self::seq_has(self.entries@, owner, spender),
            },
    {
        let mut i: usize = 0;
        while i < self.entries.len()
            invariant
                i <= self.entries.len(),
                forall|j: int| 0 <= j < i ==> !Self::keyed(self.entries@[j], owner, spender),
            decreases self.entries.len() - i,
        {
            if self.entries[i].owner == owner && self.entries[i].spender == spender {
                return Some(i);
            }
            i = i + 1;
        }
        None
    }

    /// Make (`owner`, `spender`) hold exactly `amount`, touching no other pair.
    pub fn set(&mut self, owner: AccountId, spender: AccountId, amount: u128)
        requires
            old(self).wf(),
        ensures
            final(self).wf(),
            final(self).spec_get(owner, spender) == amount,
            forall|o: AccountId, p: AccountId|
                !(o == owner && p == spender)
                    ==> final(self).spec_get(o, p) == old(self).spec_get(o, p),
    {
        let row = AllowanceEntry { owner, spender, amount };
        match self.find_index(owner, spender) {
            Some(i) => {
                proof {
                    Self::lemma_seq_update(self.entries@, i as int, row);
                }
                self.entries.set(i, row);
            }
            None => {
                proof {
                    Self::lemma_seq_push(self.entries@, row);
                }
                self.entries.push(row);
            }
        }
    }
}

} // verus!
