use account_deposit::{AccountDeposit, Contract, LedgerError};

const BASE: u128 = 840_000_000_000_000_000_000;
const PER_TOKEN: u128 = 800_000_000_000_000_000_000;

fn id(name: &str) -> String {
    name.to_string()
}

/// A ledger in which "alice" has paid in `amount` and nothing is whitelisted.
fn ledger_with_alice(amount: u128) -> Contract {
    let mut ledger = Contract::new(Vec::new());
    ledger.internal_register_account(&id("alice"), amount);
    ledger
}

/// A ledger in which "alice" holds 100 of the registered token "x".
fn ledger_with_hundred() -> Contract {
    let mut ledger = ledger_with_alice(BASE + PER_TOKEN);
    assert_eq!(ledger.register_tokens(&id("alice"), vec![id("x")]), Ok(()));
    assert_eq!(ledger.internal_deposit(&id("alice"), &id("x"), 100), Ok(()));
    ledger
}

fn record_of<'a>(ledger: &'a Contract, account: &str) -> &'a AccountDeposit {
    ledger.deposited_amounts.get(&id(account)).unwrap()
}

#[test]
fn new_ledger_has_no_account() {
    let ledger = Contract::new(vec![id("w")]);
    assert_eq!(ledger.deposited_amounts.len(), 0);
    assert!(ledger.is_whitelisted(&id("w")));
    assert!(!ledger.is_whitelisted(&id("x")));
    assert_eq!(ledger.internal_get_deposit(&id("alice"), &id("w")), 0);
}

#[test]
fn register_account_creates_a_record() {
    let ledger = ledger_with_alice(BASE);
    let record = record_of(&ledger, "alice");
    assert_eq!(record.amount, BASE);
    assert_eq!(record.tokens.len(), 0);
}

#[test]
fn register_account_adds_to_an_existing_record() {
    let mut ledger = ledger_with_hundred();
    ledger.internal_register_account(&id("alice"), 5);
    let record = record_of(&ledger, "alice");
    assert_eq!(record.amount, BASE + PER_TOKEN + 5);
    assert_eq!(record.tokens.get(&id("x")), Some(&100));
    assert_eq!(ledger.deposited_amounts.len(), 1);
}

#[test]
fn register_account_accepts_an_amount_below_the_base_cost() {
    let mut ledger = ledger_with_alice(1);
    assert_eq!(record_of(&ledger, "alice").amount, 1);
    assert_eq!(
        ledger.register_tokens(&id("alice"), vec![id("x")]),
        Err(LedgerError::InsufficientStorage)
    );
    ledger.internal_register_account(&id("alice"), BASE + PER_TOKEN - 1);
    assert_eq!(ledger.register_tokens(&id("alice"), vec![id("x")]), Ok(()));
}

#[test]
fn accounts_are_kept_apart() {
    let mut ledger = ledger_with_hundred();
    ledger.internal_register_account(&id("bob"), BASE + PER_TOKEN);
    assert_eq!(ledger.internal_get_deposit(&id("bob"), &id("x")), 0);
    assert_eq!(ledger.register_tokens(&id("bob"), vec![id("x")]), Ok(()));
    assert_eq!(ledger.internal_deposit(&id("bob"), &id("x"), 7), Ok(()));
    assert_eq!(ledger.internal_get_deposit(&id("bob"), &id("x")), 7);
    assert_eq!(ledger.internal_get_deposit(&id("alice"), &id("x")), 100);
}

#[test]
fn registered_token_has_zero_balance() {
    let mut ledger = ledger_with_alice(BASE + PER_TOKEN);
    assert_eq!(ledger.register_tokens(&id("alice"), vec![id("x")]), Ok(()));
    assert_eq!(ledger.internal_get_deposit(&id("alice"), &id("x")), 0);
    assert!(record_of(&ledger, "alice").tokens.contains_key(&id("x")));
}

#[test]
fn deposit_of_a_registered_token_is_recorded() {
    let mut ledger = ledger_with_alice(BASE + PER_TOKEN);
    assert_eq!(ledger.register_tokens(&id("alice"), vec![id("x")]), Ok(()));
    assert!(!ledger.is_whitelisted(&id("x")));
    assert_eq!(ledger.internal_deposit(&id("alice"), &id("x"), 100), Ok(()));
    assert_eq!(ledger.internal_get_deposit(&id("alice"), &id("x")), 100);
    assert_eq!(
        ledger.internal_deposit(&id("alice"), &id("y"), 50),
        Err(LedgerError::AssetNotWhitelisted)
    );
    assert_eq!(ledger.internal_get_deposit(&id("alice"), &id("y")), 0);
    assert!(!record_of(&ledger, "alice").tokens.contains_key(&id("y")));
    assert_eq!(ledger.internal_get_deposit(&id("alice"), &id("x")), 100);
}

#[test]
fn withdraw_of_more_than_the_balance_fails() {
    let mut ledger = ledger_with_hundred();
    let result = ledger.withdraw(&id("alice"), id("x"), 150, None, 1);
    assert_eq!(result.unwrap_err(), LedgerError::InsufficientBalance);
    assert_eq!(ledger.internal_get_deposit(&id("alice"), &id("x")), 100);
}

#[test]
fn withdraw_of_all_with_unregister_removes_the_token() {
    let mut ledger = ledger_with_hundred();
    let transfer = ledger.withdraw(&id("alice"), id("x"), 100, Some(true), 1).unwrap();
    assert_eq!(transfer.receiver_id, id("alice"));
    assert_eq!(transfer.token_id, id("x"));
    assert_eq!(transfer.amount, 100);
    assert!(!record_of(&ledger, "alice").tokens.contains_key(&id("x")));
    assert_eq!(record_of(&ledger, "alice").tokens.len(), 0);
    assert_eq!(ledger.internal_get_deposit(&id("alice"), &id("x")), 0);
}

#[test]
fn register_fails_with_exactly_the_base_cost() {
    let mut ledger = ledger_with_alice(BASE);
    assert_eq!(
        ledger.register_tokens(&id("alice"), vec![id("x")]),
        Err(LedgerError::InsufficientStorage)
    );
    assert_eq!(record_of(&ledger, "alice").tokens.len(), 0);
    assert_eq!(record_of(&ledger, "alice").amount, BASE);
}

#[test]
fn register_tokens_needs_an_account() {
    let mut ledger = Contract::new(Vec::new());
    assert_eq!(
        ledger.register_tokens(&id("alice"), vec![id("x")]),
        Err(LedgerError::AccountNotRegistered)
    );
    assert_eq!(
        ledger.register_tokens(&id("alice"), Vec::new()),
        Err(LedgerError::AccountNotRegistered)
    );
    assert_eq!(ledger.deposited_amounts.len(), 0);
}

#[test]
fn register_tokens_with_no_token_changes_nothing() {
    let mut ledger = ledger_with_alice(0);
    assert_eq!(ledger.register_tokens(&id("alice"), Vec::new()), Ok(()));
    assert_eq!(record_of(&ledger, "alice").tokens.len(), 0);
    assert_eq!(record_of(&ledger, "alice").amount, 0);
}

#[test]
fn register_tokens_registers_all_or_none() {
    let mut ledger = ledger_with_alice(BASE + 2 * PER_TOKEN);
    assert_eq!(
        ledger.register_tokens(&id("alice"), vec![id("x"), id("y"), id("z")]),
        Err(LedgerError::InsufficientStorage)
    );
    assert_eq!(record_of(&ledger, "alice").tokens.len(), 0);
    assert_eq!(ledger.register_tokens(&id("alice"), vec![id("x"), id("y")]), Ok(()));
    assert_eq!(record_of(&ledger, "alice").tokens.len(), 2);
    assert_eq!(ledger.internal_get_deposit(&id("alice"), &id("x")), 0);
    assert_eq!(ledger.internal_get_deposit(&id("alice"), &id("y")), 0);
}

#[test]
fn register_tokens_counts_a_repeated_token_once() {
    let mut ledger = ledger_with_alice(BASE + PER_TOKEN);
    assert_eq!(ledger.register_tokens(&id("alice"), vec![id("x"), id("x"), id("x")]), Ok(()));
    assert_eq!(record_of(&ledger, "alice").tokens.len(), 1);
}

#[test]
fn register_tokens_keeps_balances() {
    let mut ledger = ledger_with_hundred();
    assert_eq!(ledger.register_tokens(&id("alice"), vec![id("x")]), Ok(()));
    assert_eq!(ledger.internal_get_deposit(&id("alice"), &id("x")), 100);
}

#[test]
fn unregister_tokens_needs_an_account() {
    let mut ledger = Contract::new(Vec::new());
    assert_eq!(
        ledger.unregister_tokens(&id("alice"), vec![id("x")]),
        Err(LedgerError::AccountNotRegistered)
    );
}

#[test]
fn unregister_tokens_removes_tokens_with_zero_balance() {
    let mut ledger = ledger_with_alice(BASE + 2 * PER_TOKEN);
    assert_eq!(ledger.register_tokens(&id("alice"), vec![id("x"), id("y")]), Ok(()));
    assert_eq!(ledger.unregister_tokens(&id("alice"), vec![id("y"), id("x")]), Ok(()));
    assert_eq!(record_of(&ledger, "alice").tokens.len(), 0);
}

#[test]
fn unregister_tokens_removes_all_or_none() {
    let mut ledger = ledger_with_alice(BASE + 2 * PER_TOKEN);
    assert_eq!(ledger.register_tokens(&id("alice"), vec![id("x"), id("y")]), Ok(()));
    assert_eq!(ledger.internal_deposit(&id("alice"), &id("y"), 1), Ok(()));
    assert_eq!(
        ledger.unregister_tokens(&id("alice"), vec![id("x"), id("y")]),
        Err(LedgerError::NonZeroBalanceOnUnregister)
    );
    let record = record_of(&ledger, "alice");
    assert_eq!(record.tokens.len(), 2);
    assert_eq!(record.tokens.get(&id("x")), Some(&0));
    assert_eq!(record.tokens.get(&id("y")), Some(&1));
}

#[test]
fn unregister_tokens_accepts_a_token_that_is_not_registered() {
    let mut ledger = ledger_with_hundred();
    assert_eq!(ledger.unregister_tokens(&id("alice"), vec![id("y")]), Ok(()));
    assert_eq!(record_of(&ledger, "alice").tokens.len(), 1);
    assert_eq!(ledger.internal_get_deposit(&id("alice"), &id("x")), 100);
}

#[test]
fn withdraw_needs_an_account() {
    let mut ledger = ledger_with_hundred();
    let result = ledger.withdraw(&id("bob"), id("x"), 1, None, 1);
    assert_eq!(result.unwrap_err(), LedgerError::AccountNotRegistered);
    assert_eq!(ledger.internal_get_deposit(&id("alice"), &id("x")), 100);
    assert_eq!(ledger.deposited_amounts.len(), 1);
}

#[test]
fn withdraw_of_an_unregistered_token_fails() {
    let mut ledger = ledger_with_hundred();
    let result = ledger.withdraw(&id("alice"), id("y"), 0, None, 1);
    assert_eq!(result.unwrap_err(), LedgerError::UnknownAsset);
    let result = ledger.withdraw(&id("alice"), id("y"), 1, Some(true), 1);
    assert_eq!(result.unwrap_err(), LedgerError::UnknownAsset);
}

#[test]
fn withdraw_takes_the_amount_and_asks_for_its_transfer() {
    let mut ledger = ledger_with_hundred();
    let transfer = ledger.withdraw(&id("alice"), id("x"), 30, None, 1).unwrap();
    assert_eq!(transfer.receiver_id, id("alice"));
    assert_eq!(transfer.token_id, id("x"));
    assert_eq!(transfer.amount, 30);
    assert_eq!(ledger.internal_get_deposit(&id("alice"), &id("x")), 70);
    let transfer = ledger.withdraw(&id("alice"), id("x"), 70, Some(false), 1).unwrap();
    assert_eq!(transfer.amount, 70);
    assert_eq!(record_of(&ledger, "alice").tokens.get(&id("x")), Some(&0));
}

#[test]
fn withdraw_with_unregister_fails_on_what_is_left() {
    let mut ledger = ledger_with_hundred();
    let result = ledger.withdraw(&id("alice"), id("x"), 99, Some(true), 1);
    assert_eq!(result.unwrap_err(), LedgerError::NonZeroBalanceOnUnregister);
    assert_eq!(ledger.internal_get_deposit(&id("alice"), &id("x")), 100);
    assert!(record_of(&ledger, "alice").tokens.contains_key(&id("x")));
}

#[test]
fn withdraw_of_nothing_succeeds() {
    let mut ledger = ledger_with_hundred();
    let transfer = ledger.withdraw(&id("alice"), id("x"), 0, None, 1).unwrap();
    assert_eq!(transfer.amount, 0);
    assert_eq!(ledger.internal_get_deposit(&id("alice"), &id("x")), 100);
}

#[test]
fn deposit_needs_an_account() {
    let mut ledger = Contract::new(vec![id("w")]);
    assert_eq!(
        ledger.internal_deposit(&id("alice"), &id("w"), 1),
        Err(LedgerError::AccountNotRegistered)
    );
    assert_eq!(ledger.deposited_amounts.len(), 0);
}

#[test]
fn deposit_of_a_whitelisted_token_registers_it() {
    let mut ledger = Contract::new(vec![id("v"), id("w")]);
    ledger.internal_register_account(&id("alice"), BASE + PER_TOKEN);
    assert_eq!(ledger.internal_deposit(&id("alice"), &id("w"), 11), Ok(()));
    assert_eq!(ledger.internal_get_deposit(&id("alice"), &id("w")), 11);
    assert!(record_of(&ledger, "alice").tokens.contains_key(&id("w")));
    assert_eq!(ledger.internal_deposit(&id("alice"), &id("w"), 4), Ok(()));
    assert_eq!(ledger.internal_get_deposit(&id("alice"), &id("w")), 15);
}

#[test]
fn deposit_of_a_whitelisted_token_needs_storage() {
    let mut ledger = Contract::new(vec![id("w")]);
    ledger.internal_register_account(&id("alice"), BASE + PER_TOKEN - 1);
    assert_eq!(
        ledger.internal_deposit(&id("alice"), &id("w"), 11),
        Err(LedgerError::InsufficientStorage)
    );
    assert_eq!(ledger.internal_get_deposit(&id("alice"), &id("w")), 0);
    assert_eq!(record_of(&ledger, "alice").tokens.len(), 0);
}

#[test]
fn get_deposit_is_zero_where_nothing_is_recorded() {
    let ledger = ledger_with_hundred();
    assert_eq!(ledger.internal_get_deposit(&id("bob"), &id("x")), 0);
    assert_eq!(ledger.internal_get_deposit(&id("alice"), &id("y")), 0);
    assert_eq!(ledger.internal_get_deposit(&id("alice"), &id("x")), 100);
}
