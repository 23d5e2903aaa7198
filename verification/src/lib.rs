//! Per-account token balances of an exchange contract, together with the
//! storage-rent accounting that keeps every account able to pay for the
//! records it occupies.

pub mod account_deposit;
pub mod account_map;
pub mod contract;
pub mod errors;
pub mod invariants;
pub mod storage;

pub use account_deposit::AccountDeposit;
pub use account_map::AccountMap;
pub use contract::{Contract, Transfer};
pub use errors::LedgerError;
