use vstd::prelude::*;

verus! {

/// The two ways a mutating ledger operation can fail.
///
/// Both are local to the caller; a failed operation leaves the ledger
/// exactly as it was.
#[derive(Clone, Copy, Debug, PartialEq, Eq, Structural)]
pub enum Error {
    /// The requested debit exceeds the source account's current balance.
    InsufficientBalance,
    /// The requested delegated transfer exceeds the spender's current
    /// allowance from the owner.
    InsufficientAllowance,
}

} // verus!
