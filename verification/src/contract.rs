//! The ledger of the exchange: one record per account, and the operations
//! that accounts and the deposit path perform on them.
//!
//! Every operation works on a copy of the record of the account and stores
//! the copy only when the whole operation has succeeded, so an operation
//! that is refused leaves the ledger as it was.

use crate::account_deposit::{AccountDeposit, AccountDepositView};
use crate::account_map::AccountMap;
use crate::errors::LedgerError;
use near_sdk::{AccountId, Balance};
use vstd::prelude::*;

verus! {

/// The ledger: the record of each registered account and the tokens that
/// any account may deposit without registering them first.
pub struct Contract {
    /// Balances of tokens for given account.
    pub deposited_amounts: AccountMap<AccountDeposit>,
    /// Tokens that are accepted on deposit without prior registration.
    pub whitelisted_tokens: Vec<AccountId>,
}

/// A transfer of tokens that the caller of `withdraw` has to request from
/// the token contract once the ledger has been stored.
#[derive(Debug)]
pub struct Transfer {
    /// Account that receives the tokens.
    pub receiver_id: AccountId,
    /// Token to transfer.
    pub token_id: AccountId,
    /// Amount to transfer.
    pub amount: Balance,
}

/// The ledger as mathematics.
pub struct ContractView {
    pub deposited_amounts: Map<Seq<char>, AccountDepositView>,
    pub whitelisted_tokens: Set<Seq<char>>,
}

/// The identifiers of `ids`, each by its view.
pub open spec fn views_of(ids: Seq<AccountId>) -> Seq<Seq<char>> {
    ids.map_values(|id: AccountId| id@)
}

impl ContractView {
    /// The ledger with `record` stored for `account`.
    pub open spec fn with_account(self, account: Seq<char>, record: AccountDepositView) -> Self {
        ContractView {
            deposited_amounts: self.deposited_amounts.insert(account, record),
            whitelisted_tokens: self.whitelisted_tokens,
        }
    }

    /// Native amount that `account` has paid in; zero for an account without a record.
    pub open spec fn native_amount(self, account: Seq<char>) -> Balance {
        if self.deposited_amounts.contains_key(account) {
            self.deposited_amounts[account].amount
        } else {
            0
        }
    }

    /// The ledger after `account` has paid in `amount` more: an account
    /// without a record gets one with no token.
    pub open spec fn spec_internal_register_account(self, account: Seq<char>, amount: Balance) -> Self
        recommends
            self.native_amount(account) + amount <= Balance::MAX,
    {
        let tokens = if self.deposited_amounts.contains_key(account) {
            self.deposited_amounts[account].tokens
        } else {
            Map::<Seq<char>, Balance>::empty()
        };
        self.with_account(
            account,
            AccountDepositView {
                amount: (self.native_amount(account) + amount) as Balance,
                tokens,
            },
        )
    }

    /// Balance of `token` that the ledger records for `account`; zero where
    /// the account has no record or has not registered the token.
    pub open spec fn spec_internal_get_deposit(self, account: Seq<char>, token: Seq<char>) -> Balance {
        if self.deposited_amounts.contains_key(account) {
            self.deposited_amounts[account].balance(token)
        } else {
            0
        }
    }

    /// The ledger after a change of the record of `account`: where `change`
    /// is a record, the ledger with that record stored; where it is an
    /// error, that error.
    pub open spec fn stored(self, account: Seq<char>, change: Result<AccountDepositView, LedgerError>) -> Result<
        Self,
        LedgerError,
    > {
        match change {
            Ok(record) => Ok(self.with_account(account, record)),
            Err(error) => Err(error),
        }
    }

    /// Recording that `amount` of `token` has come in for `account`.
    pub open spec fn spec_internal_deposit(
        self,
        account: Seq<char>,
        token: Seq<char>,
        amount: Balance,
    ) -> Result<Self, LedgerError>
        recommends
            self.spec_internal_get_deposit(account, token) + amount <= Balance::MAX,
    {
        if !self.deposited_amounts.contains_key(account) {
            Err(LedgerError::AccountNotRegistered)
        } else if !(self.whitelisted_tokens.contains(token)
            || self.deposited_amounts[account].tokens.contains_key(token)) {
            Err(LedgerError::AssetNotWhitelisted)
        } else {
            self.stored(account, self.deposited_amounts[account].spec_add(token, amount))
        }
    }

    /// Registering `tokens`, in turn, for `account`.
    pub open spec fn spec_register_tokens(self, account: Seq<char>, tokens: Seq<Seq<char>>) -> Result<
        Self,
        LedgerError,
    > {
        if !self.deposited_amounts.contains_key(account) {
            Err(LedgerError::AccountNotRegistered)
        } else {
            self.stored(account, self.deposited_amounts[account].spec_register_all(tokens))
        }
    }

    /// Unregistering `tokens`, in turn, for `account`.
    pub open spec fn spec_unregister_tokens(self, account: Seq<char>, tokens: Seq<Seq<char>>) -> Result<
        Self,
        LedgerError,
    > {
        if !self.deposited_amounts.contains_key(account) {
            Err(LedgerError::AccountNotRegistered)
        } else {
            self.stored(account, self.deposited_amounts[account].spec_unregister_all(tokens))
        }
    }

    /// Taking `amount` of `token` out of the record of `account`.
    pub open spec fn spec_withdraw(
        self,
        account: Seq<char>,
        token: Seq<char>,
        amount: Balance,
        unregister: bool,
    ) -> Result<Self, LedgerError> {
        if !self.deposited_amounts.contains_key(account) {
            Err(LedgerError::AccountNotRegistered)
        } else {
            self.stored(
                account,
                self.deposited_amounts[account].spec_withdraw(token, amount, unregister),
            )
        }
    }
}

impl View for Contract {
    type V = ContractView;

    open spec fn view(&self) -> ContractView {
        ContractView {
            deposited_amounts: self.deposited_amounts@.map_values(|record: AccountDeposit| record@),
            whitelisted_tokens: Set::new(
                |token: Seq<char>|
                    exists|i: int|
                        0 <= i < self.whitelisted_tokens@.len() && (
                        #[trigger] self.whitelisted_tokens@[i])@ == token,
            ),
        }
    }
}

impl Contract {
    /// A ledger without accounts, with the given tokens whitelisted.
    pub fn new(whitelisted_tokens: Vec<AccountId>) -> (contract: Self)
        ensures
            contract@.deposited_amounts == Map::<Seq<char>, AccountDepositView>::empty(),
            contract@.whitelisted_tokens == views_of(whitelisted_tokens@).to_set(),
            contract.whitelisted_tokens == whitelisted_tokens,
    {
        let contract = Contract { deposited_amounts: AccountMap::new(), whitelisted_tokens };
        proof {
            assert(contract@.deposited_amounts =~= Map::<Seq<char>, AccountDepositView>::empty());
            let ids = views_of(whitelisted_tokens@);
            assert forall|token: Seq<char>|
                contract@.whitelisted_tokens.contains(token) == ids.to_set().contains(token) by {
                if contract@.whitelisted_tokens.contains(token) {
                    let i = choose|i: int|
                        0 <= i < whitelisted_tokens@.len() && (#[trigger] whitelisted_tokens@[i])@
                            == token;
                    assert(ids[i] == token);
                }
                if ids.to_set().contains(token) {
                    let i = choose|i: int| 0 <= i < ids.len() && ids[i] == token;
                    assert(whitelisted_tokens@[i]@ == token);
                }
            }
            assert(contract@.whitelisted_tokens =~= ids.to_set());
        }
        contract
    }

    /// Whether `token_id` is on the whitelist.
    pub fn is_whitelisted(&self, token_id: &AccountId) -> (listed: bool)
        ensures
            listed == self@.whitelisted_tokens.contains(token_id@),
    {
        let mut i: usize = 0;
        while i < self.whitelisted_tokens.len()
            invariant
                i <= self.whitelisted_tokens@.len(),
                forall|j: int| 0 <= j < i ==> (#[trigger] self.whitelisted_tokens@[j])@ != token_id@,
            decreases self.whitelisted_tokens@.len() - i,
        {
            if self.whitelisted_tokens[i] == *token_id {
                return true;
            }
            i += 1;
        }
        false
    }

    /// A copy of the record of `account_id`, if the account has one.
    fn load(&self, account_id: &AccountId) -> (record: Option<AccountDeposit>)
        ensures
            match record {
                Some(record) => self@.deposited_amounts.contains_key(account_id@) && record@
                    == self@.deposited_amounts[account_id@],
                None => !self@.deposited_amounts.contains_key(account_id@),
            },
    {
        match self.deposited_amounts.get(account_id) {
            Some(record) => Some(record.clone()),
            None => None,
        }
    }

    /// Stores `record` as the record of `account_id`.
    fn store(&mut self, account_id: &AccountId, record: AccountDeposit)
        ensures
            final(self)@ == old(self)@.with_account(account_id@, record@),
    {
        self.deposited_amounts.insert(account_id.clone(), record);
        assert(final(self)@.deposited_amounts =~= old(self)@.deposited_amounts.insert(
            account_id@,
            record@,
        ));
    }

    /// Registers given token in the user's account deposit.
    /// Fails if not enough balance on this account to cover storage, or if
    /// the account has no record; the ledger is then unchanged.
    pub fn register_tokens(&mut self, sender_id: &AccountId, token_ids: Vec<AccountId>) -> (result:
        Result<(), LedgerError>)
        ensures
            match old(self)@.spec_register_tokens(sender_id@, views_of(token_ids@)) {
                Ok(after) => result is Ok && final(self)@ == after,
                Err(error) => result == Err::<(), LedgerError>(error) && *final(self) == *old(self),
            },
    {
        let mut deposits = match self.load(sender_id) {
            Some(deposits) => deposits,
            None => { return Err(LedgerError::AccountNotRegistered); },
        };
        let ghost start = deposits@;
        let ghost tokens = views_of(token_ids@);
        let mut i: usize = 0;
        assert(tokens.skip(0) =~= tokens);
        while i < token_ids.len()
            invariant
                i <= token_ids@.len(),
                *self == *old(self),
                self@.deposited_amounts.contains_key(sender_id@),
                start == self@.deposited_amounts[sender_id@],
                tokens == views_of(token_ids@),
                start.spec_register_all(tokens) == deposits@.spec_register_all(tokens.skip(i as int)),
            decreases token_ids@.len() - i,
        {
            proof {
                assert(tokens.skip(i as int).first() == token_ids@[i as int]@);
                assert(tokens.skip(i as int).drop_first() =~= tokens.skip(i + 1));
            }
            match deposits.register(&token_ids[i]) {
                Ok(()) => {},
                Err(error) => { return Err(error); },
            }
            i += 1;
        }
        self.store(sender_id, deposits);
        Ok(())
    }

    /// Unregister given token from user's account deposit.
    /// Fails if the balance of any given token is non 0, or if the account
    /// has no record; the ledger is then unchanged.
    pub fn unregister_tokens(&mut self, sender_id: &AccountId, token_ids: Vec<AccountId>) -> (result:
        Result<(), LedgerError>)
        ensures
            match old(self)@.spec_unregister_tokens(sender_id@, views_of(token_ids@)) {
                Ok(after) => result is Ok && final(self)@ == after,
                Err(error) => result == Err::<(), LedgerError>(error) && *final(self) == *old(self),
            },
    {
        let mut deposits = match self.load(sender_id) {
            Some(deposits) => deposits,
            None => { return Err(LedgerError::AccountNotRegistered); },
        };
        let ghost start = deposits@;
        let ghost tokens = views_of(token_ids@);
        let mut i: usize = 0;
        assert(tokens.skip(0) =~= tokens);
        while i < token_ids.len()
            invariant
                i <= token_ids@.len(),
                *self == *old(self),
                self@.deposited_amounts.contains_key(sender_id@),
                start == self@.deposited_amounts[sender_id@],
                tokens == views_of(token_ids@),
                start.spec_unregister_all(tokens) == deposits@.spec_unregister_all(
                    tokens.skip(i as int),
                ),
            decreases token_ids@.len() - i,
        {
            proof {
                assert(tokens.skip(i as int).first() == token_ids@[i as int]@);
                assert(tokens.skip(i as int).drop_first() =~= tokens.skip(i + 1));
            }
            match deposits.unregister(&token_ids[i]) {
                Ok(()) => {},
                Err(error) => { return Err(error); },
            }
            i += 1;
        }
        self.store(sender_id, deposits);
        Ok(())
    }

    /// Withdraws given token from the deposits of given user.
    /// Optional unregister will try to remove record of this token from AccountDeposit for given user.
    /// Unregister will fail if the left over balance is non 0.
    ///
    /// The caller must have attached exactly one yoctoNEAR to the call.
    /// On success the ledger holds the new balance, and the result is the
    /// transfer that is then to be requested from the token contract; the
    /// ledger does not wait for it and does not take the debit back.
    pub fn withdraw(
        &mut self,
        sender_id: &AccountId,
        token_id: AccountId,
        amount: Balance,
        unregister: Option<bool>,
        attached_deposit: Balance,
    ) -> (result: Result<Transfer, LedgerError>)
        requires
            attached_deposit == 1,
        ensures
            match old(self)@.spec_withdraw(
                sender_id@,
                token_id@,
                amount,
                unregister == Some(true),
            ) {
                Ok(after) => {
                    &&& final(self)@ == after
                    &&& result matches Ok(transfer)
                    &&& transfer.receiver_id@ == sender_id@
                    &&& transfer.token_id@ == token_id@
                    &&& transfer.amount == amount
                },
                Err(error) => result matches Err(refusal) && refusal == error && *final(self)
                    == *old(self),
            },
    {
        let mut deposits = match self.load(sender_id) {
            Some(deposits) => deposits,
            None => { return Err(LedgerError::AccountNotRegistered); },
        };
        match deposits.sub(token_id.clone(), amount) {
            Ok(()) => {},
            Err(error) => { return Err(error); },
        }
        match unregister {
            Some(true) => {
                match deposits.unregister(&token_id) {
                    Ok(()) => {},
                    Err(error) => { return Err(error); },
                }
            },
            _ => {},
        }
        self.store(sender_id, deposits);
        Ok(Transfer { receiver_id: sender_id.clone(), token_id, amount })
    }

    /// Registers account in deposited amounts with given amount of $NEAR.
    /// If account already exists, adds amount to it.
    /// This should be used when it's known that storage is prepaid.
    pub fn internal_register_account(&mut self, account_id: &AccountId, amount: Balance)
        requires
            old(self)@.native_amount(account_id@) + amount <= Balance::MAX,
        ensures
            final(self)@ == old(self)@.spec_internal_register_account(account_id@, amount),
    {
        let mut deposit_amount = match self.load(account_id) {
            Some(deposit_amount) => deposit_amount,
            None => AccountDeposit::default(),
        };
        deposit_amount.amount += amount;
        self.store(account_id, deposit_amount);
    }

    /// Record deposit of some number of tokens to this contract.
    /// Fails if account is not registered or if token isn't whitelisted,
    /// or if the account does not cover the storage; the ledger is then unchanged.
    pub fn internal_deposit(&mut self, sender_id: &AccountId, token_id: &AccountId, amount: Balance) -> (result:
        Result<(), LedgerError>)
        requires
            old(self)@.spec_internal_get_deposit(sender_id@, token_id@) + amount <= Balance::MAX,
        ensures
            match old(self)@.spec_internal_deposit(sender_id@, token_id@, amount) {
                Ok(after) => result is Ok && final(self)@ == after,
                Err(error) => result == Err::<(), LedgerError>(error) && *final(self) == *old(self),
            },
    {
        let mut account_deposit = match self.load(sender_id) {
            Some(account_deposit) => account_deposit,
            None => { return Err(LedgerError::AccountNotRegistered); },
        };
        if !(self.is_whitelisted(token_id) || account_deposit.tokens.contains_key(token_id)) {
            return Err(LedgerError::AssetNotWhitelisted);
        }
        match account_deposit.add(token_id.clone(), amount) {
            Ok(()) => {},
            Err(error) => { return Err(error); },
        }
        self.store(sender_id, account_deposit);
        Ok(())
    }

    /// Returns current balance of given token for given user. If there is nothing recorded, returns 0.
    pub fn internal_get_deposit(&self, sender_id: &AccountId, token_id: &AccountId) -> (balance: Balance)
        ensures
            balance == self@.spec_internal_get_deposit(sender_id@, token_id@),
    {
        match self.deposited_amounts.get(sender_id) {
            Some(deposits) => match deposits.tokens.get(token_id) {
                Some(balance) => *balance,
                None => 0,
            },
            None => 0,
        }
    }
}

} // verus!
