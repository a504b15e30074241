use blockchain::account::{default_version, Account, AccountError, AccountState, UNITS_PER_COIN};
use blockchain::crypto::Address;

const COIN: u64 = UNITS_PER_COIN;

#[test]
fn test_account_creation() {
    let address = Address("test_address".to_string());
    let account = Account::new(address.clone());

    assert_eq!(account.address, address);
    assert_eq!(account.balance, 0);
    assert_eq!(account.nonce, 0);
}

#[test]
fn test_deposit_and_withdraw() {
    let address = Address("test_address".to_string());
    let mut account = Account::new(address);

    // Test deposit
    account.deposit(100 * COIN).unwrap();
    assert_eq!(account.balance, 100 * COIN);

    // Test withdraw
    account.withdraw(50 * COIN).unwrap();
    assert_eq!(account.balance, 50 * COIN);

    // Test insufficient funds
    let result = account.withdraw(100 * COIN);
    assert!(result.is_err());
}

#[test]
fn test_account_state() {
    let mut state = AccountState::new();
    let sender = Address("sender".to_string());
    let recipient = Address("recipient".to_string());

    // Test initial state
    let sender_account = state.get_account(&sender);
    assert_eq!(sender_account.balance, 0);

    // Update sender account with some funds
    let mut updated_sender = sender_account;
    updated_sender.deposit(100 * COIN).unwrap();
    state.update_account(updated_sender);

    // Test transfer
    state.transfer(&sender, &recipient, 50 * COIN, COIN, 0).unwrap();

    // Check balances after transfer
    let sender_after = state.get_account(&sender);
    let recipient_after = state.get_account(&recipient);

    assert_eq!(sender_after.balance, 49 * COIN);
    assert_eq!(sender_after.nonce, 1);
    assert_eq!(recipient_after.balance, 50 * COIN);
}

#[test]
fn account_versions_and_units() {
    assert_eq!(default_version(), 1);
    assert_eq!(UNITS_PER_COIN, 100_000_000);
    assert_eq!(Account::new(Address("a".to_string())).version, 1);
}

#[test]
fn deposit_rejects_zero_and_overflow() {
    let mut account = Account::new(Address("a".to_string()));
    assert!(matches!(account.deposit(0), Err(AccountError::InvalidAmount(_))));
    account.deposit(u64::MAX).unwrap();
    assert_eq!(account.balance, u64::MAX);
    assert!(matches!(account.deposit(1), Err(AccountError::SystemError(_))));
    assert_eq!(account.balance, u64::MAX);
}

#[test]
fn withdraw_rejects_zero_and_overdraft() {
    let mut account = Account::new(Address("a".to_string()));
    account.deposit(5).unwrap();
    assert!(matches!(account.withdraw(0), Err(AccountError::InvalidAmount(_))));
    match account.withdraw(6) {
        Err(AccountError::InsufficientFunds { required, available }) => {
            assert_eq!(required, 6);
            assert_eq!(available, 5);
        }
        other => panic!("unexpected: {:?}", other),
    }
    assert_eq!(account.balance, 5);
    account.withdraw(5).unwrap();
    assert_eq!(account.balance, 0);
}

#[test]
fn nonce_and_funds_checks() {
    let mut account = Account::new(Address("a".to_string()));
    account.deposit(10).unwrap();
    assert!(account.has_sufficient_funds(10));
    assert!(account.has_sufficient_funds(0));
    assert!(!account.has_sufficient_funds(11));
    assert!(!account.has_sufficient_funds(u64::MAX as u128 + 1));
    assert!(account.is_valid_nonce(0));
    assert!(!account.is_valid_nonce(1));
    account.increment_nonce();
    assert_eq!(account.nonce, 1);
    assert!(account.is_valid_nonce(1));
    assert!(!account.is_valid_nonce(0));
    let copy = account.clone();
    assert_eq!(copy.balance, 10);
    assert_eq!(copy.nonce, 1);
    assert_eq!(copy.address, account.address);
}

#[test]
fn reading_an_unknown_account_does_not_record_it() {
    let state = AccountState::new();
    let account = state.get_account(&Address("nobody".to_string()));
    assert_eq!(account.address.0, "nobody");
    assert_eq!(account.balance, 0);
    assert_eq!(account.nonce, 0);
    assert_eq!(account.version, 1);
    assert!(state.get_all_accounts().is_empty());
}

#[test]
fn update_replaces_the_account_on_record() {
    let mut state = AccountState::new();
    let address = Address("a".to_string());
    let mut account = state.get_account(&address);
    account.deposit(7).unwrap();
    state.update_account(account);
    let mut again = state.get_account(&address);
    assert_eq!(again.balance, 7);
    again.deposit(3).unwrap();
    again.increment_nonce();
    state.update_account(again);
    let last = state.get_account(&address);
    assert_eq!(last.balance, 10);
    assert_eq!(last.nonce, 1);
    assert_eq!(state.get_all_accounts().len(), 1);
}

fn funded(address: &str, units: u64) -> AccountState {
    let mut state = AccountState::new();
    let mut account = state.get_account(&Address(address.to_string()));
    account.deposit(units).unwrap();
    state.update_account(account);
    state
}

#[test]
fn transfer_with_exact_balance_succeeds() {
    let from = Address("from".to_string());
    let to = Address("to".to_string());
    let mut state = funded("from", 1_010);
    state.transfer(&from, &to, 1_000, 10, 0).unwrap();
    assert_eq!(state.get_account(&from).balance, 0);
    assert_eq!(state.get_account(&from).nonce, 1);
    assert_eq!(state.get_account(&to).balance, 1_000);
    assert_eq!(state.get_account(&to).nonce, 0);
}

#[test]
fn transfer_one_unit_short_fails_and_changes_nothing() {
    let from = Address("from".to_string());
    let to = Address("to".to_string());
    let mut state = funded("from", 1_009);
    match state.transfer(&from, &to, 1_000, 10, 0) {
        Err(AccountError::InsufficientFunds { required, available }) => {
            assert_eq!(required, 1_010);
            assert_eq!(available, 1_009);
        }
        other => panic!("unexpected: {:?}", other),
    }
    assert_eq!(state.get_account(&from).balance, 1_009);
    assert_eq!(state.get_account(&from).nonce, 0);
    assert_eq!(state.get_account(&to).balance, 0);
    assert_eq!(state.get_all_accounts().len(), 1);
}

#[test]
fn transfer_checks_the_nonce_first() {
    let from = Address("from".to_string());
    let to = Address("to".to_string());
    let mut state = funded("from", 5);
    // Both the nonce and the funds are wrong: the nonce is reported.
    match state.transfer(&from, &to, 10, 1, 1) {
        Err(AccountError::InvalidNonce { expected, got }) => {
            assert_eq!(expected, 0);
            assert_eq!(got, 1);
        }
        other => panic!("unexpected: {:?}", other),
    }
    state.transfer(&from, &to, 1, 1, 0).unwrap();
    // The nonce has advanced: the old one is refused, and so is the one after next.
    assert!(matches!(
        state.transfer(&from, &to, 1, 1, 0),
        Err(AccountError::InvalidNonce { expected: 1, got: 0 })
    ));
    assert!(matches!(
        state.transfer(&from, &to, 1, 1, 2),
        Err(AccountError::InvalidNonce { expected: 1, got: 2 })
    ));
    state.transfer(&from, &to, 1, 1, 1).unwrap();
    assert_eq!(state.get_account(&from).balance, 1);
    assert_eq!(state.get_account(&from).nonce, 2);
    assert_eq!(state.get_account(&to).balance, 2);
}

#[test]
fn transfer_of_nothing_is_refused() {
    let from = Address("from".to_string());
    let to = Address("to".to_string());
    let mut state = funded("from", 5);
    assert!(matches!(state.transfer(&from, &to, 0, 1, 0), Err(AccountError::InvalidAmount(_))));
    assert!(matches!(state.transfer(&from, &to, 0, 0, 0), Err(AccountError::InvalidAmount(_))));
    assert_eq!(state.get_account(&from).balance, 5);
    assert_eq!(state.get_account(&from).nonce, 0);
}

#[test]
fn transfer_whose_total_exceeds_64_bits_is_insufficient_funds() {
    let from = Address("from".to_string());
    let to = Address("to".to_string());
    let mut state = funded("from", u64::MAX);
    match state.transfer(&from, &to, u64::MAX, 1, 0) {
        Err(AccountError::InsufficientFunds { required, available }) => {
            assert_eq!(required, u64::MAX as u128 + 1);
            assert_eq!(available, u64::MAX);
        }
        other => panic!("unexpected: {:?}", other),
    }
}

#[test]
fn transfer_that_would_overflow_the_recipient_is_refused() {
    let from = Address("from".to_string());
    let to = Address("to".to_string());
    let mut state = funded("to", u64::MAX);
    let mut sender = state.get_account(&from);
    sender.deposit(10).unwrap();
    state.update_account(sender);
    assert!(matches!(state.transfer(&from, &to, 1, 0, 0), Err(AccountError::SystemError(_))));
    assert_eq!(state.get_account(&from).balance, 10);
    assert_eq!(state.get_account(&to).balance, u64::MAX);
}

#[test]
fn transfer_at_the_last_nonce_is_refused() {
    let from = Address("from".to_string());
    let to = Address("to".to_string());
    let mut state = AccountState::new();
    state.update_account(Account { version: 1, address: from.clone(), balance: 10, nonce: u64::MAX });
    assert!(matches!(
        state.transfer(&from, &to, 1, 0, u64::MAX),
        Err(AccountError::SystemError(_))
    ));
    assert_eq!(state.get_account(&from).balance, 10);
    assert_eq!(state.get_account(&from).nonce, u64::MAX);
}

#[test]
fn transfer_to_oneself_costs_the_fee() {
    let me = Address("me".to_string());
    let mut state = funded("me", 100 * COIN);
    state.transfer(&me, &me, 10 * COIN, COIN, 0).unwrap();
    let account = state.get_account(&me);
    assert_eq!(account.balance, 99 * COIN);
    assert_eq!(account.nonce, 1);
    assert_eq!(state.get_all_accounts().len(), 1);
    // The nonce is used up.
    assert!(matches!(
        state.transfer(&me, &me, 10 * COIN, COIN, 0),
        Err(AccountError::InvalidNonce { expected: 1, got: 0 })
    ));
    assert_eq!(state.get_account(&me).balance, 99 * COIN);
}

#[test]
fn transfer_to_oneself_at_the_limits() {
    let me = Address("me".to_string());
    // The whole balance, and a balance at the limit of 64 bits.
    let mut state = funded("me", u64::MAX);
    state.transfer(&me, &me, u64::MAX - 5, 5, 0).unwrap();
    assert_eq!(state.get_account(&me).balance, u64::MAX - 5);
    assert_eq!(state.get_account(&me).nonce, 1);
    // One unit short.
    let mut short = funded("me", 10);
    match short.transfer(&me, &me, 10, 1, 0) {
        Err(AccountError::InsufficientFunds { required, available }) => {
            assert_eq!(required, 11);
            assert_eq!(available, 10);
        }
        other => panic!("unexpected: {:?}", other),
    }
    assert_eq!(short.get_account(&me).balance, 10);
    assert_eq!(short.get_account(&me).nonce, 0);
}

#[test]
fn the_fee_is_burned() {
    let from = Address("from".to_string());
    let to = Address("to".to_string());
    let mut state = funded("from", 1_000);
    state.transfer(&from, &to, 100, 7, 0).unwrap();
    let total: u64 = state.get_all_accounts().iter().map(|a| a.balance).sum();
    assert_eq!(total, 1_000 - 7);
}

#[test]
fn mining_reward_is_credited() {
    let miner = Address("miner".to_string());
    let mut state = AccountState::new();
    state.process_mining_reward(&miner, 50 * COIN).unwrap();
    state.process_mining_reward(&miner, 50 * COIN).unwrap();
    assert_eq!(state.get_account(&miner).balance, 100 * COIN);
    assert_eq!(state.get_account(&miner).nonce, 0);
    assert!(matches!(
        state.process_mining_reward(&miner, 0),
        Err(AccountError::InvalidAmount(_))
    ));
    assert!(matches!(
        state.process_mining_reward(&miner, u64::MAX),
        Err(AccountError::SystemError(_))
    ));
    assert_eq!(state.get_account(&miner).balance, 100 * COIN);
}

#[test]
fn all_accounts_are_listed_once() {
    let mut state = AccountState::new();
    for (i, name) in ["a", "b", "c", "d"].iter().enumerate() {
        let mut account = state.get_account(&Address(name.to_string()));
        account.deposit(i as u64 + 1).unwrap();
        state.update_account(account);
    }
    let mut listed: Vec<(String, u64)> =
        state.get_all_accounts().into_iter().map(|a| (a.address.0, a.balance)).collect();
    listed.sort();
    assert_eq!(
        listed,
        vec![
            ("a".to_string(), 1),
            ("b".to_string(), 2),
            ("c".to_string(), 3),
            ("d".to_string(), 4)
        ]
    );
}

#[test]
fn a_cloned_ledger_is_independent() {
    let mut state = funded("a", 10);
    let copy = state.clone();
    state.process_mining_reward(&Address("a".to_string()), 5).unwrap();
    assert_eq!(state.get_account(&Address("a".to_string())).balance, 15);
    assert_eq!(copy.get_account(&Address("a".to_string())).balance, 10);
}

#[test]
fn a_refused_amount_is_named_in_the_message() {
    let mut account = Account::new(Address("a".to_string()));
    assert_eq!(
        account.deposit(0).unwrap_err().to_string(),
        "Invalid amount: Amount must be positive: 0"
    );
    assert_eq!(
        account.withdraw(0).unwrap_err().to_string(),
        "Invalid amount: Amount must be positive: 0"
    );
    let mut state = funded("from", 5);
    let refused = state
        .transfer(&Address("from".to_string()), &Address("to".to_string()), 0, 1, 0)
        .unwrap_err();
    assert_eq!(refused.to_string(), "Invalid amount: Amount must be positive: 0");
}

#[test]
fn account_error_messages() {
    assert_eq!(
        AccountError::InsufficientFunds { required: 1_010, available: 500 }.to_string(),
        "Insufficient funds: required 1010, available 500"
    );
    assert_eq!(
        AccountError::InvalidNonce { expected: 0, got: 1 }.to_string(),
        "Invalid nonce: expected 0, got 1"
    );
    assert_eq!(AccountError::AccountNotFound("x".to_string()).to_string(), "Account not found: x");
    assert_eq!(AccountError::InvalidAmount("x".to_string()).to_string(), "Invalid amount: x");
    assert_eq!(AccountError::SystemError("x".to_string()).to_string(), "System error: x");
}
