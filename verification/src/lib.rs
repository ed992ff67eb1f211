//! A fungible-token ledger: a single authoritative map of account balances
//! plus owner-delegated spending allowances, mutated only through strictly
//! validated operations that preserve total-supply conservation.
//!
//! The ledger itself performs no authentication and no I/O: the host resolves
//! the caller's identity and passes it in, and every successful mutation
//! records the notification it owes to outside observers in an [`EventLog`]
//! supplied by the host.

mod account;
mod allowances;
mod balances;
mod error;
mod events;
mod ledger;

pub use account::AccountId;
pub use error::Error;
pub use events::Approval;
pub use events::Event;
pub use events::EventLog;
pub use events::Transfer;
pub use ledger::Erc20;
pub use ledger::allowances_unchanged;
pub use ledger::balances_unchanged;
pub use ledger::lemma_approve_overwrite;
pub use ledger::lemma_balance_bounded;
pub use ledger::lemma_conservation;
pub use ledger::lemma_self_transfer_preserves_balances;
pub use ledger::moves_balance;
pub use ledger::sets_allowance;
