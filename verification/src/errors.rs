//! Why a ledger operation was refused.

use vstd::prelude::*;

verus! {

/// The reasons for which the ledger refuses an operation. A refused operation
/// changes nothing.
#[derive(Clone, Copy, Debug, PartialEq, Eq, Structural)]
pub enum LedgerError {
    /// The account has no record in the ledger.
    AccountNotRegistered,
    /// The token is neither whitelisted nor registered by the account.
    AssetNotWhitelisted,
    /// The native amount of the account would not cover its storage.
    InsufficientStorage,
    /// The account holds less of the token than was asked for.
    InsufficientBalance,
    /// The account has not registered the token.
    UnknownAsset,
    /// The token still has a balance and cannot be unregistered.
    NonZeroBalanceOnUnregister,
}

} // verus!
