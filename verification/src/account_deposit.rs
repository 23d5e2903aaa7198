//! The record that the ledger keeps for one account: the native amount it
//! has paid in for storage and its balance of each registered token.

use crate::account_map::AccountMap;
use crate::errors::LedgerError;
use crate::storage::{storage_usage_of, MIN_ACCOUNT_DEPOSIT_LENGTH, TOKEN_ENTRY_LENGTH};
use near_sdk::{AccountId, Balance};
use vstd::prelude::*;

verus! {

/// Account deposits information and storage cost.
pub struct AccountDeposit {
    /// Native amount sent to the exchange.
    /// Used for storage now, but in future can be used for trading as well.
    pub amount: Balance,
    /// Amounts of various tokens in this account. A token is registered
    /// exactly when it is a key of this map, whatever its amount.
    pub tokens: AccountMap<Balance>,
}

/// What a record holds, as mathematics: the native amount and the map from
/// each registered token to its balance.
pub struct AccountDepositView {
    pub amount: Balance,
    pub tokens: Map<Seq<char>, Balance>,
}

impl AccountDepositView {
    /// Balance of `token`; zero where the token is not registered.
    pub open spec fn balance(self, token: Seq<char>) -> Balance {
        if self.tokens.contains_key(token) {
            self.tokens[token]
        } else {
            0
        }
    }

    /// Cost of storing the record, recomputed from the number of registered tokens.
    pub open spec fn storage_usage(self) -> nat {
        storage_usage_of(self.tokens.dom().len())
    }

    /// The native amount covers the cost of storing the record.
    pub open spec fn solvent(self) -> bool {
        self.storage_usage() <= self.amount
    }

    /// The record with the balance of `token` set to `balance`.
    pub open spec fn with_balance(self, token: Seq<char>, balance: Balance) -> Self {
        AccountDepositView { amount: self.amount, tokens: self.tokens.insert(token, balance) }
    }

    /// Adding `amount` to the balance of `token`, which registers the token
    /// if it was not. Refused where the native amount would not cover the
    /// storage of the result.
    pub open spec fn spec_add(self, token: Seq<char>, amount: Balance) -> Result<
        Self,
        LedgerError,
    >
        recommends
            self.balance(token) + amount <= Balance::MAX,
    {
        let credited = self.with_balance(token, (self.balance(token) + amount) as Balance);
        if credited.solvent() {
            Ok(credited)
        } else {
            Err(LedgerError::InsufficientStorage)
        }
    }

    /// Taking `amount` from the balance of `token`. Refused where the token
    /// is not registered or its balance is smaller than `amount`. The token
    /// stays registered, also with balance zero.
    pub open spec fn spec_sub(self, token: Seq<char>, amount: Balance) -> Result<
        Self,
        LedgerError,
    > {
        if !self.tokens.contains_key(token) {
            Err(LedgerError::UnknownAsset)
        } else if amount > self.tokens[token] {
            Err(LedgerError::InsufficientBalance)
        } else {
            Ok(self.with_balance(token, (self.tokens[token] - amount) as Balance))
        }
    }

    /// Registering `token`: a token that is not yet registered enters with
    /// balance zero, a registered one keeps its balance. Refused where the
    /// native amount would not cover the storage of the result.
    pub open spec fn spec_register(self, token: Seq<char>) -> Result<Self, LedgerError> {
        let registered = if self.tokens.contains_key(token) {
            self
        } else {
            self.with_balance(token, 0)
        };
        if registered.solvent() {
            Ok(registered)
        } else {
            Err(LedgerError::InsufficientStorage)
        }
    }

    /// Unregistering `token`: its key leaves the map. Refused where the
    /// token has a balance other than zero.
    pub open spec fn spec_unregister(self, token: Seq<char>) -> Result<Self, LedgerError> {
        if self.balance(token) != 0 {
            Err(LedgerError::NonZeroBalanceOnUnregister)
        } else {
            Ok(AccountDepositView { amount: self.amount, tokens: self.tokens.remove(token) })
        }
    }

    /// Registering the tokens of `tokens` in turn. The first refusal ends
    /// the batch and is its answer.
    pub open spec fn spec_register_all(self, tokens: Seq<Seq<char>>) -> Result<Self, LedgerError>
        decreases tokens.len(),
    {
        if tokens.len() == 0 {
            Ok(self)
        } else {
            match self.spec_register(tokens.first()) {
                Ok(registered) => registered.spec_register_all(tokens.drop_first()),
                Err(error) => Err(error),
            }
        }
    }

    /// Unregistering the tokens of `tokens` in turn. The first refusal ends
    /// the batch and is its answer.
    pub open spec fn spec_unregister_all(self, tokens: Seq<Seq<char>>) -> Result<
        Self,
        LedgerError,
    >
        decreases tokens.len(),
    {
        if tokens.len() == 0 {
            Ok(self)
        } else {
            match self.spec_unregister(tokens.first()) {
                Ok(unregistered) => unregistered.spec_unregister_all(tokens.drop_first()),
                Err(error) => Err(error),
            }
        }
    }

    /// Taking `amount` of `token` out of the record and, where `unregister`
    /// is set, unregistering the token afterwards.
    pub open spec fn spec_withdraw(self, token: Seq<char>, amount: Balance, unregister: bool) -> Result<
        Self,
        LedgerError,
    > {
        match self.spec_sub(token, amount) {
            Ok(debited) => if unregister {
                debited.spec_unregister(token)
            } else {
                Ok(debited)
            },
            Err(error) => Err(error),
        }
    }
}

impl View for AccountDeposit {
    type V = AccountDepositView;

    open spec fn view(&self) -> AccountDepositView {
        AccountDepositView { amount: self.amount, tokens: self.tokens@ }
    }
}

impl Default for AccountDeposit {
    /// The record of an account that has paid nothing in and registered no token.
    fn default() -> (record: Self)
        ensures
            record.amount == 0,
            record.tokens@ == Map::<Seq<char>, Balance>::empty(),
    {
        AccountDeposit { amount: 0, tokens: AccountMap::new() }
    }
}

impl Clone for AccountDeposit {
    fn clone(&self) -> (copy: Self)
        ensures
            copy@ == self@,
    {
        let copy = AccountDeposit { amount: self.amount, tokens: self.tokens.clone() };
        assert(copy.tokens@ =~= self.tokens@);
        copy
    }
}

impl AccountDeposit {
    /// Whether the native amount covers the storage of a record with `count` tokens.
    fn covers(&self, count: u128) -> (enough: bool)
        requires
            count <= usize::MAX + 1,
        ensures
            enough == (storage_usage_of(count as nat) <= self.amount),
    {
        let bytes: u128 = MIN_ACCOUNT_DEPOSIT_LENGTH + count * TOKEN_ENTRY_LENGTH;
        match bytes.checked_mul(near_sdk::env::storage_byte_cost()) {
            Some(cost) => cost <= self.amount,
            None => false,
        }
    }

    /// Adds amount to the balance of given token while checking that storage is covered.
    /// A token that was not registered becomes registered. Where the native
    /// amount does not cover the storage, fails and changes nothing.
    pub fn add(&mut self, token: AccountId, amount: Balance) -> (result: Result<(), LedgerError>)
        requires
            old(self)@.balance(token@) + amount <= Balance::MAX,
        ensures
            match old(self)@.spec_add(token@, amount) {
                Ok(credited) => result is Ok && final(self)@ == credited,
                Err(error) => result == Err::<(), LedgerError>(error) && *final(self) == *old(self),
            },
    {
        let count: u128 = self.tokens.len() as u128;
        match self.tokens.get(&token) {
            Some(prev_amount) => {
                let balance: Balance = *prev_amount + amount;
                assert(self.tokens@.insert(token@, balance).dom() =~= self.tokens@.dom());
                if self.covers(count) {
                    self.tokens.insert(token, balance);
                    Ok(())
                } else {
                    Err(LedgerError::InsufficientStorage)
                }
            },
            None => {
                assert(self.tokens@.insert(token@, amount).dom() =~= self.tokens@.dom().insert(
                    token@,
                ));
                if self.covers(count + 1) {
                    self.tokens.insert(token, amount);
                    Ok(())
                } else {
                    Err(LedgerError::InsufficientStorage)
                }
            },
        }
    }

    /// Subtract from balance of given token. Fails, and changes nothing,
    /// where the token is not registered or its balance is too small.
    pub fn sub(&mut self, token: AccountId, amount: Balance) -> (result: Result<(), LedgerError>)
        ensures
            match old(self)@.spec_sub(token@, amount) {
                Ok(debited) => result is Ok && final(self)@ == debited,
                Err(error) => result == Err::<(), LedgerError>(error) && *final(self) == *old(self),
            },
    {
        let value: Balance = match self.tokens.get(&token) {
            Some(value) => *value,
            None => { return Err(LedgerError::UnknownAsset); },
        };
        if value < amount {
            return Err(LedgerError::InsufficientBalance);
        }
        self.tokens.insert(token, value - amount);
        Ok(())
    }

    /// Returns amount of $NEAR to cover storage used by this data structure.
    pub fn storage_usage(&self) -> (cost: Balance)
        requires
            self@.storage_usage() <= Balance::MAX,
        ensures
            cost == self@.storage_usage(),
    {
        (MIN_ACCOUNT_DEPOSIT_LENGTH + self.tokens.len() as u128 * TOKEN_ENTRY_LENGTH)
            * near_sdk::env::storage_byte_cost()
    }

    /// Returns how much NEAR is available for storage.
    pub fn storage_available(&self) -> (available: Balance)
        requires
            self@.solvent(),
        ensures
            available == self.amount - self@.storage_usage(),
    {
        self.amount - self.storage_usage()
    }

    /// Returns minimal account deposit storage usage possible.
    pub fn min_storage_usage() -> (cost: Balance)
        ensures
            cost == storage_usage_of(0),
    {
        MIN_ACCOUNT_DEPOSIT_LENGTH * near_sdk::env::storage_byte_cost()
    }

    /// Registers given token and sets its balance to 0; a token that is
    /// registered already keeps its balance. Fails if not enough amount to
    /// cover new storage usage, and then changes nothing.
    pub fn register(&mut self, token_id: &AccountId) -> (result: Result<(), LedgerError>)
        ensures
            match old(self)@.spec_register(token_id@) {
                Ok(registered) => result is Ok && final(self)@ == registered,
                Err(error) => result == Err::<(), LedgerError>(error) && *final(self) == *old(self),
            },
    {
        let count: u128 = self.tokens.len() as u128;
        if self.tokens.contains_key(token_id) {
            if self.covers(count) {
                Ok(())
            } else {
                Err(LedgerError::InsufficientStorage)
            }
        } else {
            assert(self.tokens@.insert(token_id@, 0).dom() =~= self.tokens@.dom().insert(
                token_id@,
            ));
            if self.covers(count + 1) {
                self.tokens.insert(token_id.clone(), 0);
                Ok(())
            } else {
                Err(LedgerError::InsufficientStorage)
            }
        }
    }

    /// Unregisters given token from this users balance. Must be 0 balance:
    /// otherwise fails and changes nothing. A token that is not registered
    /// has no balance, and unregistering it succeeds and changes nothing.
    pub fn unregister(&mut self, token_id: &AccountId) -> (result: Result<(), LedgerError>)
        ensures
            match old(self)@.spec_unregister(token_id@) {
                Ok(unregistered) => result is Ok && final(self)@ == unregistered,
                Err(error) => result == Err::<(), LedgerError>(error) && *final(self) == *old(self),
            },
    {
        let amount: Balance = match self.tokens.get(token_id) {
            Some(amount) => *amount,
            None => 0,
        };
        if amount != 0 {
            return Err(LedgerError::NonZeroBalanceOnUnregister);
        }
        self.tokens.remove(token_id);
        Ok(())
    }
}

} // verus!
