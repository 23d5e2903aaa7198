//! Storage pricing: how many bytes an account record occupies and what they cost.

use near_sdk::Balance;
use vstd::prelude::*;

verus! {

/// Longest account identifier that the host accepts, in bytes.
pub const MAX_ACCOUNT_LENGTH: u128 = 64;

/// Bytes taken by a record that holds no token: the account key, the native
/// amount and the length prefix of the token map.
pub const MIN_ACCOUNT_DEPOSIT_LENGTH: u128 = MAX_ACCOUNT_LENGTH + 16 + 4;

/// Bytes taken by each registered token: its key and its balance.
pub const TOKEN_ENTRY_LENGTH: u128 = MAX_ACCOUNT_LENGTH + 16;

/// Price of one byte of storage, in yoctoNEAR.
pub const STORAGE_PRICE_PER_BYTE: u128 = 10_000_000_000_000_000_000;

/// `near_sdk::env::storage_byte_cost` returns the price of one byte of storage.
/// In the version of the SDK that this crate builds against the function
/// returns its constant `STORAGE_PRICE_PER_BYTE`, ten to the nineteenth
/// yoctoNEAR, whatever the state of the host; the contract below says so and
/// is not proved.
pub assume_specification[ near_sdk::env::storage_byte_cost ]() -> (price: Balance)
    ensures
        price == STORAGE_PRICE_PER_BYTE,
;

/// Cost of storing a record with `tokens` registered tokens.
pub open spec fn storage_usage_of(tokens: nat) -> nat {
    ((MIN_ACCOUNT_DEPOSIT_LENGTH + tokens * TOKEN_ENTRY_LENGTH) * STORAGE_PRICE_PER_BYTE) as nat
}

} // verus!
