use vstd::prelude::*;

verus! {

/// An account's identity: the origin of a call, as resolved by the host.
///
/// The ledger assumes nothing of it beyond equality and hashability.
#[derive(Clone, Copy, Debug, PartialEq, Eq, Structural, Hash)]
pub struct AccountId(pub u64);

} // verus!
