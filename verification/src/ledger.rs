use vstd::prelude::*;
use crate::account::AccountId;
use crate::allowances::Allowances;
use crate::balances::Balances;
use crate::error::Error;
use crate::events::Approval;
use crate::events::Event;
use crate::events::EventLog;
use crate::events::Transfer;

verus! {

/// The ledger: a fixed total supply, a balance per account, and an
/// allowance per (owner, spender) pair.
///
/// Its invariant [`Erc20::wf`] holds at construction and is preserved by
/// every operation: the balances always sum to exactly the total supply,
/// so transfers neither create nor destroy value.
pub struct Erc20 {
    total_supply: u128,
    balances: Balances,
    allowances: Allowances,
}

/// `value` moved from `from` to `to` between `pre` and `post`: `from` was
/// debited, `to` was credited, every other account kept its balance, and a
/// self-transfer changed nothing.
pub open spec fn moves_balance(
    pre: Erc20,
    post: Erc20,
    from: AccountId,
    to: AccountId,
    value: u128,
) -> bool {
    &&& from == to ==> post.spec_balance_of(from) == pre.spec_balance_of(from)
    &&& from != to ==> post.spec_balance_of(from) == pre.spec_balance_of(from) - value
        && post.spec_balance_of(to) == pre.spec_balance_of(to) + value
    &&& forall|a: AccountId|
        a != from && a != to ==> post.spec_balance_of(a) == pre.spec_balance_of(a)
}

/// Every account holds the same balance in `post` as in `pre`.
pub open spec fn balances_unchanged(pre: Erc20, post: Erc20) -> bool {
    forall|a: AccountId| post.spec_balance_of(a) == pre.spec_balance_of(a)
}

/// Every (owner, spender) pair holds the same allowance in `post` as in `pre`.
pub open spec fn allowances_unchanged(pre: Erc20, post: Erc20) -> bool {
    forall|o: AccountId, s: AccountId| post.spec_allowance(o, s) == pre.spec_allowance(o, s)
}

/// Between `pre` and `post`, (`owner`, `spender`) was set to exactly `value`
/// — an overwrite, never an addition — and no other pair was touched.
pub open spec fn sets_allowance(
    pre: Erc20,
    post: Erc20,
    owner: AccountId,
    spender: AccountId,
    value: u128,
) -> bool {
    &&& post.spec_allowance(owner, spender) == value
    &&& forall|o: AccountId, s: AccountId|
        !(o == owner && s == spender) ==> post.spec_allowance(o, s) == pre.spec_allowance(o, s)
}

impl Erc20 {
    /// The ledger invariant: both tables are well formed and the balances
    /// sum to exactly the total supply.
    pub closed spec fn wf(self) -> bool {
        &&& self.balances.wf()
        &&& self.allowances.wf()
        &&& self.balances.spec_sum() == self.total_supply as int
    }

    /// The immutable total supply.
    pub closed spec fn spec_total_supply(self) -> u128 {
        self.total_supply
    }

    /// The balance of `account`; 0 for an account never credited.
    pub closed spec fn spec_balance_of(self, account: AccountId) -> u128 {
        self.balances.spec_get(account)
    }

    /// The allowance `owner` has granted `spender`; 0 for a pair never
    /// approved.
    pub closed spec fn spec_allowance(self, owner: AccountId, spender: AccountId) -> u128 {
        self.allowances.spec_get(owner, spender)
    }

    /// The sum of all balances.
    pub closed spec fn spec_sum_of_balances(self) -> int {
        self.balances.spec_sum()
    }

    /// Create the ledger: the whole supply is credited to `creator`, every
    /// other account holds 0, and no allowance is granted. Construction
    /// cannot fail.
    pub fn new(total_supply: u128, creator: AccountId) -> (ledger: Erc20)
        ensures
            ledger.wf(),
            ledger.spec_total_supply() == total_supply,
            ledger.spec_balance_of(creator) == total_supply,
            forall|a: AccountId| a != creator ==> ledger.spec_balance_of(a) == 0,
            forall|o: AccountId, s: AccountId| ledger.spec_allowance(o, s) == 0,
    {
        let mut balances = Balances::new();
        balances.set(creator, total_supply);
        Erc20 { total_supply, balances, allowances: Allowances::new() }
    }

    /// The immutable total supply.
    pub fn total_supply(&self) -> (supply: u128)
        ensures
            supply == self.spec_total_supply(),
    {
        self.total_supply
    }

    /// The balance of `owner`, 0 if it was never credited.
    pub fn balance_of(&self, owner: AccountId) -> (balance: u128)
        ensures
            balance == self.spec_balance_of(owner),
    {
        self.balances.get(owner)
    }

    /// The allowance `owner` has granted `spender`, 0 if never approved.
    pub fn allowance(&self, owner: AccountId, spender: AccountId) -> (amount: u128)
        ensures
            amount == self.spec_allowance(owner, spender),
    {
        self.allowances.get(owner, spender)
    }

    /// Move `value` from `caller` to `to`.
    ///
    /// Succeeds exactly when `caller` holds at least `value` (a zero-value
    /// or self-transfer is permitted), records one `Transfer` notification
    /// in `sink`, and touches nothing else. On failure the ledger and the
    /// sink are exactly as they were.
    pub fn transfer(
        &mut self,
        caller: AccountId,
        to: AccountId,
        value: u128,
        sink: &mut EventLog,
    ) -> (result: Result<(), Error>)
        requires
            old(self).wf(),
        ensures
            final(self).wf(),
            final(self).spec_total_supply() == old(self).spec_total_supply(),
            result is Ok <==> old(self).spec_balance_of(caller) >= value,
            result is Ok ==> moves_balance(*old(self), *final(self), caller, to, value),
            result is Ok ==> allowances_unchanged(*old(self), *final(self)),
            result is Ok ==> final(sink)@ == old(sink)@.push(
                Event::Transfer(Transfer { from: caller, to, value }),
            ),
            result is Err ==> result->Err_0 == Error::InsufficientBalance,
            result is Err ==> *final(self) == *old(self) && *final(sink) == *old(sink),
    {
        self.transfer_help(caller, to, value, sink)
    }

    /// Move `value` from `from` to `to`: the one routine every transfer
    /// path shares. Debits first, credits second; the invariant guarantees
    /// the credit cannot overflow, since no balance can exceed the total
    /// supply.
    fn transfer_help(
        &mut self,
        from: AccountId,
        to: AccountId,
        value: u128,
        sink: &mut EventLog,
    ) -> (result: Result<(), Error>)
        requires
            old(self).wf(),
        ensures
            final(self).wf(),
            final(self).spec_total_supply() == old(self).spec_total_supply(),
            result is Ok <==> old(self).spec_balance_of(from) >= value,
            result is Ok ==> moves_balance(*old(self), *final(self), from, to, value),
            result is Ok ==> allowances_unchanged(*old(self), *final(self)),
            result is Ok ==> final(sink)@ == old(sink)@.push(
                Event::Transfer(Transfer { from, to, value }),
            ),
            result is Err ==> result->Err_0 == Error::InsufficientBalance,
            result is Err ==> *final(self) == *old(self) && *final(sink) == *old(sink),
    {
        let from_balance = self.balances.get(from);
        if from_balance < value {
            return Err(Error::InsufficientBalance);
        }
        self.balances.set(from, from_balance - value);
        let to_balance = self.balances.get(to);
        proof {
            self.balances.lemma_get_le_sum(to);
        }
        self.balances.set(to, to_balance + value);
        sink.emit(Event::Transfer(Transfer { from, to, value }));
        Ok(())
    }

    /// Same balance movement as [`Erc20::transfer_help`], on the delegated
    /// path: `from` and `to` are ledger accounts, not the caller.
    fn transfer_from_to(
        &mut self,
        from: AccountId,
        to: AccountId,
        value: u128,
        sink: &mut EventLog,
    ) -> (result: Result<(), Error>)
        requires
            old(self).wf(),
        ensures
            final(self).wf(),
            final(self).spec_total_supply() == old(self).spec_total_supply(),
            result is Ok <==> old(self).spec_balance_of(from) >= value,
            result is Ok ==> moves_balance(*old(self), *final(self), from, to, value),
            result is Ok ==> allowances_unchanged(*old(self), *final(self)),
            result is Ok ==> final(sink)@ == old(sink)@.push(
                Event::Transfer(Transfer { from, to, value }),
            ),
            result is Err ==> result->Err_0 == Error::InsufficientBalance,
            result is Err ==> *final(self) == *old(self) && *final(sink) == *old(sink),
    {
        self.transfer_help(from, to, value, sink)
    }

    /// Move `value` from `from` to `to` on behalf of `caller`, spending the
    /// allowance `from` granted `caller`.
    ///
    /// The allowance is checked first, the balance second, and the
    /// allowance is decremented — by exactly the value moved, from the
    /// value read for the check — only after the transfer succeeds.
    /// Succeeds exactly when both checks pass; on failure the ledger and
    /// the sink are exactly as they were.
    pub fn transfer_from(
        &mut self,
        caller: AccountId,
        from: AccountId,
        to: AccountId,
        value: u128,
        sink: &mut EventLog,
    ) -> (result: Result<(), Error>)
        requires
            old(self).wf(),
        ensures
            final(self).wf(),
            final(self).spec_total_supply() == old(self).spec_total_supply(),
            result is Ok <==> old(self).spec_allowance(from, caller) >= value
                && old(self).spec_balance_of(from) >= value,
            result is Ok ==> moves_balance(*old(self), *final(self), from, to, value),
            result is Ok ==> final(self).spec_allowance(from, caller)
                == old(self).spec_allowance(from, caller) - value,
            result is Ok ==> forall|o: AccountId, s: AccountId|
                !(o == from && s == caller)
                    ==> final(self).spec_allowance(o, s) == old(self).spec_allowance(o, s),
            result is Ok ==> final(sink)@ == old(sink)@.push(
                Event::Transfer(Transfer { from, to, value }),
            ),
            result == Result::<(), Error>::Err(Error::InsufficientAllowance)
                <==> old(self).spec_allowance(from, caller) < value,
            result == Result::<(), Error>::Err(Error::InsufficientBalance)
                <==> old(self).spec_allowance(from, caller) >= value
                    && old(self).spec_balance_of(from) < value,
            result is Err ==> *final(self) == *old(self) && *final(sink) == *old(sink),
    {
        let granted = self.allowance(from, caller);
        if granted < value {
            return Err(Error::InsufficientAllowance);
        }
        match self.transfer_from_to(from, to, value, sink) {
            Ok(()) => {}
            Err(e) => {
                return Err(e);
            }
        }
        self.allowances.set(from, caller, granted - value);
        Ok(())
    }

    /// Set the allowance `caller` grants `spender` to exactly `value` —
    /// an overwrite, never an addition. Always succeeds, records one
    /// `Approval` notification in `sink`, and touches no balance and no
    /// other pair's allowance.
    pub fn approve(
        &mut self,
        caller: AccountId,
        spender: AccountId,
        value: u128,
        sink: &mut EventLog,
    ) -> (result: Result<(), Error>)
        requires
            old(self).wf(),
        ensures
            final(self).wf(),
            final(self).spec_total_supply() == old(self).spec_total_supply(),
            result is Ok,
            balances_unchanged(*old(self), *final(self)),
            sets_allowance(*old(self), *final(self), caller, spender, value),
            final(sink)@ == old(sink)@.push(
                Event::Approval(Approval { owner: caller, spender, value }),
            ),
    {
        self.allowances.set(caller, spender, value);
        sink.emit(Event::Approval(Approval { owner: caller, spender, value }));
        Ok(())
    }
}

/// Conservation: in every well-formed ledger — and every operation keeps
/// the ledger well formed — the balances sum to exactly the total supply,
/// so no sequence of successful transfers creates or destroys value.
pub proof fn lemma_conservation(ledger: Erc20)
    requires
        ledger.wf(),
    ensures
        ledger.spec_sum_of_balances() == ledger.spec_total_supply() as int,
{
}

/// No account can hold more than the total supply: its balance is one
/// summand of a sum of non-negative amounts equal to the total supply.
pub proof fn lemma_balance_bounded(ledger: Erc20, account: AccountId)
    requires
        ledger.wf(),
    ensures
        ledger.spec_balance_of(account) <= ledger.spec_total_supply(),
{
    ledger.balances.lemma_get_le_sum(account);
}

/// Approvals overwrite: after granting `v1` and then `v2` to the same
/// (owner, spender) pair, the allowance is exactly `v2`, not `v1 + v2`.
pub proof fn lemma_approve_overwrite(
    l0: Erc20,
    l1: Erc20,
    l2: Erc20,
    owner: AccountId,
    spender: AccountId,
    v1: u128,
    v2: u128,
)
    requires
        sets_allowance(l0, l1, owner, spender, v1),
        sets_allowance(l1, l2, owner, spender, v2),
    ensures
        l2.spec_allowance(owner, spender) == v2,
{
}

/// A self-transfer is a no-op on balances: whatever value an account moves
/// to itself, every account keeps its balance.
pub proof fn lemma_self_transfer_preserves_balances(
    pre: Erc20,
    post: Erc20,
    account: AccountId,
    value: u128,
)
    requires
        moves_balance(pre, post, account, account, value),
    ensures
        balances_unchanged(pre, post),
{
    assert forall|a: AccountId| post.spec_balance_of(a) == pre.spec_balance_of(a) by {
        if a != account {
            assert(post.spec_balance_of(a) == pre.spec_balance_of(a));
        }
    }
}

} // verus!
