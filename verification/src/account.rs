//! Accounts and the ledger of balances and nonces.
//!
//! Amounts are whole numbers of base units; `UNITS_PER_COIN` of them make one
//! coin. The ledger is a `DashMap` from address to account, read through the
//! map `AccountState::view`.

use crate::crypto::Address;
use crate::text::{decimal_text, push_decimal};
use dashmap::DashMap;
use vstd::prelude::*;
use vstd::string::StringExecFns;

verus! {

/// The number of base units in one coin.
pub const UNITS_PER_COIN: u64 = 100_000_000;

/// Schema version written into every new account.
pub fn default_version() -> (v: u32)
    ensures
        v == 1,
{
    1
}

/// What can go wrong with an operation on accounts.
#[derive(Debug)]
pub enum AccountError {
    AccountNotFound(String),
    InsufficientFunds { required: u128, available: u64 },
    InvalidAmount(String),
    InvalidNonce { expected: u64, got: u64 },
    SystemError(String),
}

/// An `AccountError` without its message text.
pub enum AccountFault {
    AccountNotFound,
    InsufficientFunds { required: int, available: int },
    InvalidAmount,
    InvalidNonce { expected: u64, got: u64 },
    SystemError,
}

impl View for AccountError {
    type V = AccountFault;

    open spec fn view(&self) -> AccountFault {
        match *self {
            AccountError::AccountNotFound(_) => AccountFault::AccountNotFound,
            AccountError::InsufficientFunds { required, available } => {
                AccountFault::InsufficientFunds {
                    required: required as int,
                    available: available as int,
                }
            },
            AccountError::InvalidAmount(_) => AccountFault::InvalidAmount,
            AccountError::InvalidNonce { expected, got } => AccountFault::InvalidNonce {
                expected,
                got,
            },
            AccountError::SystemError(_) => AccountFault::SystemError,
        }
    }
}

impl AccountError {
    /// The message a user is shown for this error; amounts are in base units.
    pub open spec fn message(self) -> Seq<char> {
        match self {
            AccountError::AccountNotFound(m) => "Account not found: "@ + m@,
            AccountError::InsufficientFunds { required, available } => {
                "Insufficient funds: required "@ + decimal_text(required as nat) + ", available "@
                    + decimal_text(available as nat)
            },
            AccountError::InvalidAmount(m) => "Invalid amount: "@ + m@,
            AccountError::InvalidNonce { expected, got } => "Invalid nonce: expected "@
                + decimal_text(expected as nat) + ", got "@ + decimal_text(got as nat),
            AccountError::SystemError(m) => "System error: "@ + m@,
        }
    }

    /// Writes the message a user is shown for this error.
    pub fn to_string(&self) -> (text: String)
        ensures
            text@ == self.message(),
    {
        match self {
            AccountError::AccountNotFound(m) => String::from_str("Account not found: ").concat(
                m.as_str(),
            ),
            AccountError::InsufficientFunds { required, available } => {
                let mut text = String::from_str("Insufficient funds: required ");
                push_decimal(&mut text, *required);
                text.append(", available ");
                push_decimal(&mut text, *available as u128);
                text
            },
            AccountError::InvalidAmount(m) => String::from_str("Invalid amount: ").concat(
                m.as_str(),
            ),
            AccountError::InvalidNonce { expected, got } => {
                let mut text = String::from_str("Invalid nonce: expected ");
                push_decimal(&mut text, *expected as u128);
                text.append(", got ");
                push_decimal(&mut text, *got as u128);
                text
            },
            AccountError::SystemError(m) => String::from_str("System error: ").concat(m.as_str()),
        }
    }
}

/// The balance and nonce recorded for one address.
#[derive(Debug)]
pub struct Account {
    pub version: u32,
    pub address: Address,
    pub balance: u64,
    pub nonce: u64,
}

/// An account as a mathematical value.
pub struct AccountView {
    pub version: u32,
    pub address: Seq<char>,
    pub balance: u64,
    pub nonce: u64,
}

impl View for Account {
    type V = AccountView;

    open spec fn view(&self) -> AccountView {
        AccountView {
            version: self.version,
            address: self.address@,
            balance: self.balance,
            nonce: self.nonce,
        }
    }
}

impl Clone for Account {
    fn clone(&self) -> (copy: Self)
        ensures
            copy == *self,
    {
        Account {
            version: self.version,
            address: self.address.clone(),
            balance: self.balance,
            nonce: self.nonce,
        }
    }
}

/// The account of an address that the ledger has never seen.
pub open spec fn fresh_account(address: Seq<char>) -> AccountView {
    AccountView { version: 1, address, balance: 0, nonce: 0 }
}

impl AccountView {
    /// The account with `amount` added to its balance.
    pub open spec fn credited(self, amount: int) -> AccountView {
        AccountView { balance: (self.balance + amount) as u64, ..self }
    }

    /// The account with `amount` taken from its balance.
    pub open spec fn debited(self, amount: int) -> AccountView {
        AccountView { balance: (self.balance - amount) as u64, ..self }
    }

    /// The account with its nonce advanced by one.
    pub open spec fn advanced(self) -> AccountView {
        AccountView { nonce: (self.nonce + 1) as u64, ..self }
    }
}

/// The message for an amount that is not positive.
fn amount_message(amount: u64) -> (text: String)
    ensures
        text@ == "Amount must be positive: "@ + decimal_text(amount as nat),
{
    let mut text = String::from_str("Amount must be positive: ");
    push_decimal(&mut text, amount as u128);
    text
}

impl Account {
    /// A new account with no funds and nonce zero.
    pub fn new(address: Address) -> (account: Account)
        ensures
            account@ == fresh_account(address@),
    {
        Account { version: default_version(), address, balance: 0, nonce: 0 }
    }

    /// Adds `amount` to the balance.
    ///
    /// Fails with `InvalidAmount` if `amount` is zero and with `SystemError` if
    /// the balance would no longer fit in 64 bits; the account is then
    /// unchanged.
    pub fn deposit(&mut self, amount: u64) -> (done: Result<(), AccountError>)
        ensures
            match done {
                Ok(()) => amount > 0 && old(self).balance + amount <= u64::MAX && final(self)@
                    == old(self)@.credited(amount as int),
                Err(e) => final(self)@ == old(self)@ && e@ == (if amount == 0 {
                    AccountFault::InvalidAmount
                } else {
                    AccountFault::SystemError
                }) && (amount == 0 || old(self).balance + amount > u64::MAX),
            },
    {
        if amount == 0 {
            return Err(AccountError::InvalidAmount(amount_message(amount)));
        }
        if amount > u64::MAX - self.balance {
            return Err(AccountError::SystemError(String::from_str("Balance out of range")));
        }
        self.balance = self.balance + amount;
        Ok(())
    }

    /// Takes `amount` from the balance.
    ///
    /// Fails with `InvalidAmount` if `amount` is zero and with
    /// `InsufficientFunds` if it exceeds the balance; the account is then
    /// unchanged.
    pub fn withdraw(&mut self, amount: u64) -> (done: Result<(), AccountError>)
        ensures
            match done {
                Ok(()) => 0 < amount <= old(self).balance && final(self)@ == old(self)@.debited(
                    amount as int,
                ),
                Err(e) => final(self)@ == old(self)@ && e@ == (if amount == 0 {
                    AccountFault::InvalidAmount
                } else {
                    AccountFault::InsufficientFunds {
                        required: amount as int,
                        available: old(self).balance as int,
                    }
                }) && (amount == 0 || old(self).balance < amount),
            },
    {
        if amount == 0 {
            return Err(AccountError::InvalidAmount(amount_message(amount)));
        }
        if self.balance < amount {
            return Err(
                AccountError::InsufficientFunds {
                    required: amount as u128,
                    available: self.balance,
                },
            );
        }
        self.balance = self.balance - amount;
        Ok(())
    }

    /// Advances the nonce by one.
    pub fn increment_nonce(&mut self)
        requires
            old(self).nonce < u64::MAX,
        ensures
            final(self)@ == old(self)@.advanced(),
    {
        self.nonce = self.nonce + 1;
    }

    /// Whether the balance covers `amount`.
    pub fn has_sufficient_funds(&self, amount: u128) -> (enough: bool)
        ensures
            enough == (self.balance >= amount),
    {
        self.balance as u128 >= amount
    }

    /// Whether `nonce` is the one the account expects next.
    pub fn is_valid_nonce(&self, nonce: u64) -> (valid: bool)
        ensures
            valid == (nonce == self.nonce),
    {
        nonce == self.nonce
    }
}

/// The ledger as a mathematical value: the accounts on record, by address.
pub type Ledger = Map<Seq<char>, AccountView>;

/// The account that reading `address` from `ledger` gives: the one on record,
/// or a fresh one.
pub open spec fn account_at(ledger: Ledger, address: Seq<char>) -> AccountView {
    if ledger.contains_key(address) {
        ledger[address]
    } else {
        fresh_account(address)
    }
}

/// A ledger holds finitely many accounts, each under its own address.
pub open spec fn ledger_wf(ledger: Ledger) -> bool {
    &&& ledger.dom().finite()
    &&& forall|a: Seq<char>| #[trigger] ledger.contains_key(a) ==> ledger[a].address == a
}

/// The ledger after the sender's part of a transfer: the sender has paid the
/// amount and the fee, and its nonce has advanced.
pub open spec fn sender_paid(ledger: Ledger, from: Seq<char>, amount: u64, fee: u64) -> Ledger {
    ledger.insert(from, account_at(ledger, from).debited(amount + fee).advanced())
}

/// Why a transfer is refused, if it is. The checks come in this order: the
/// nonce, the funds, the amount, and the limits of 64-bit numbers. The
/// recipient is looked at as it stands once the sender has paid.
pub open spec fn transfer_fault(
    ledger: Ledger,
    from: Seq<char>,
    to: Seq<char>,
    amount: u64,
    fee: u64,
    nonce: u64,
) -> Option<AccountFault> {
    let sender = account_at(ledger, from);
    let recipient = account_at(sender_paid(ledger, from, amount, fee), to);
    if sender.nonce != nonce {
        Some(AccountFault::InvalidNonce { expected: sender.nonce, got: nonce })
    } else if sender.balance < amount + fee {
        Some(
            AccountFault::InsufficientFunds {
                required: amount + fee,
                available: sender.balance as int,
            },
        )
    } else if amount == 0 {
        Some(AccountFault::InvalidAmount)
    } else if recipient.balance + amount > u64::MAX || sender.nonce == u64::MAX {
        Some(AccountFault::SystemError)
    } else {
        None
    }
}

/// The ledger after a transfer: the sender pays the amount and the fee and its
/// nonce advances, then the recipient receives the amount; the fee is burned.
/// An account that pays itself is debited and credited in turn: it loses the
/// fee, and its nonce advances.
pub open spec fn transfer_applied(
    ledger: Ledger,
    from: Seq<char>,
    to: Seq<char>,
    amount: u64,
    fee: u64,
) -> Ledger {
    let paid = sender_paid(ledger, from, amount, fee);
    paid.insert(to, account_at(paid, to).credited(amount as int))
}

/// Why a reward is refused, if it is.
pub open spec fn reward_fault(ledger: Ledger, miner: Seq<char>, reward: u64) -> Option<
    AccountFault,
> {
    if reward == 0 {
        Some(AccountFault::InvalidAmount)
    } else if account_at(ledger, miner).balance + reward > u64::MAX {
        Some(AccountFault::SystemError)
    } else {
        None
    }
}

/// The ledger after `reward` is paid to `miner`.
pub open spec fn reward_applied(ledger: Ledger, miner: Seq<char>, reward: u64) -> Ledger {
    ledger.insert(miner, account_at(ledger, miner).credited(reward as int))
}

#[verifier::external_type_specification]
#[verifier::external_body]
#[verifier::reject_recursive_types(K)]
#[verifier::reject_recursive_types(V)]
#[verifier::reject_recursive_types(S)]
pub struct ExDashMap<K, V, S>(DashMap<K, V, S>);

/// The accounts that a map holds, by address.
pub uninterp spec fn account_entries(map: DashMap<String, Account>) -> Map<Seq<char>, AccountView>;


/// Trusted: `DashMap::new`, an empty map.
#[verifier::external_body]
fn entries_new() -> (entries: DashMap<String, Account>)
    ensures
        account_entries(entries) == Ledger::empty(),
{
    DashMap::new()
}

/// Trusted: `DashMap::get`, copied out of the guard it returns: the value
/// stored under the key, if there is one.
#[verifier::external_body]
fn entries_get(map: &DashMap<String, Account>, address: &String) -> (found: Option<Account>)
    ensures
        match found {
            Some(account) => account_entries(*map).contains_key(address@) && account@
                == account_entries(*map)[address@],
            None => !account_entries(*map).contains_key(address@),
        },
{
    map.get(address).map(|entry| entry.value().clone())
}

/// Trusted: `DashMap::insert`, which stores the value under the key and
/// replaces what was there. It does not panic.
#[verifier::external_body]
fn entries_insert(map: &mut DashMap<String, Account>, address: String, account: Account)
    ensures
        account_entries(*final(map)) == account_entries(*old(map)).insert(address@, account@),
    no_unwind
{
    map.insert(address, account);
}

/// Trusted: `DashMap::iter`, each entry copied out as a pair. Every key of the
/// map comes exactly once, with its value, in an order that is not fixed.
#[verifier::external_body]
fn entries_list(map: &DashMap<String, Account>) -> (list: Vec<(String, Account)>)
    ensures
        list@.len() == account_entries(*map).dom().len(),
        forall|i: int|
            0 <= i < list@.len() ==> account_entries(*map).contains_key(#[trigger] list@[i].0@)
                && account_entries(*map)[list@[i].0@] == list@[i].1@,
        forall|i: int, j: int|
            0 <= i < j < list@.len() ==> #[trigger] list@[i].0@ != #[trigger] list@[j].0@,
{
    map.iter().map(|entry| (entry.key().clone(), entry.value().clone())).collect()
}

/// Trusted: `Clone` of `DashMap`, a map with the same entries.
#[verifier::external_body]
fn entries_clone(map: &DashMap<String, Account>) -> (copy: DashMap<String, Account>)
    ensures
        account_entries(copy) == account_entries(*map),
{
    map.clone()
}

/// The state of all accounts.
pub struct AccountState {
    accounts: DashMap<String, Account>,
}

impl View for AccountState {
    type V = Ledger;

    closed spec fn view(&self) -> Ledger {
        account_entries(self.accounts)
    }
}

impl AccountState {
    /// What holds of every ledger: finitely many accounts, each under its own
    /// address.
    #[verifier::type_invariant]
    pub open spec fn well_formed(self) -> bool {
        ledger_wf(self@)
    }

    /// An empty ledger.
    pub fn new() -> (state: AccountState)
        ensures
            state@ == Ledger::empty(),
    {
        AccountState { accounts: entries_new() }
    }

    /// The account of `address`: the one on record, or a fresh one with no
    /// funds and nonce zero. Reading does not add the account to the ledger.
    pub fn get_account(&self, address: &Address) -> (account: Account)
        ensures
            account@ == account_at(self@, address@),
            account@.address == address@,
            ledger_wf(self@),
    {
        proof {
            use_type_invariant(self);
        }
        match entries_get(&self.accounts, &address.0) {
            Some(account) => account,
            None => Account::new(address.clone()),
        }
    }

    /// Records `account` under its address, in place of what was there.
    pub fn update_account(&mut self, account: Account)
        ensures
            final(self)@ == old(self)@.insert(account@.address, account@),
            ledger_wf(final(self)@),
    {
        proof {
            use_type_invariant(&*self);
        }
        let address = account.address.0.clone();
        entries_insert(&mut self.accounts, address, account);
    }

    /// Moves `amount` from `from` to `to` and burns `fee`.
    ///
    /// The sender's nonce must be `nonce` and its balance must cover the amount
    /// and the fee. On any failure the ledger is unchanged.
    pub fn transfer(
        &mut self,
        from: &Address,
        to: &Address,
        amount: u64,
        fee: u64,
        nonce: u64,
    ) -> (done: Result<(), AccountError>)
        ensures
            ledger_wf(final(self)@),
            match done {
                Ok(()) => transfer_fault(old(self)@, from@, to@, amount, fee, nonce) is None
                    && final(self)@ == transfer_applied(old(self)@, from@, to@, amount, fee),
                Err(e) => transfer_fault(old(self)@, from@, to@, amount, fee, nonce) == Some(e@)
                    && final(self)@ == old(self)@,
            },
    {
        proof {
            use_type_invariant(&*self);
        }
        let mut sender = self.get_account(from);
        if !sender.is_valid_nonce(nonce) {
            return Err(AccountError::InvalidNonce { expected: sender.nonce, got: nonce });
        }
        let total_amount: u128 = amount as u128 + fee as u128;
        if !sender.has_sufficient_funds(total_amount) {
            return Err(
                AccountError::InsufficientFunds {
                    required: total_amount,
                    available: sender.balance,
                },
            );
        }
        if amount == 0 {
            return Err(AccountError::InvalidAmount(amount_message(amount)));
        }
        match sender.withdraw(total_amount as u64) {
            Err(e) => {
                return Err(e);
            },
            Ok(()) => {},
        }
        if sender.nonce == u64::MAX {
            return Err(AccountError::SystemError(String::from_str("Nonce out of range")));
        }
        sender.increment_nonce();
        // The recipient as it stands once the sender has paid: the sender
        // itself, where an account pays itself.
        let mut recipient = if from.0 == to.0 {
            sender.clone()
        } else {
            self.get_account(to)
        };
        match recipient.deposit(amount) {
            Err(e) => {
                return Err(e);
            },
            Ok(()) => {},
        }
        self.update_account(sender);
        self.update_account(recipient);
        Ok(())
    }

    /// Pays `reward` to `miner`.
    ///
    /// Fails with `InvalidAmount` if the reward is zero and with `SystemError`
    /// if the balance would no longer fit in 64 bits; the ledger is then
    /// unchanged.
    pub fn process_mining_reward(&mut self, miner: &Address, reward: u64) -> (done: Result<
        (),
        AccountError,
    >)
        ensures
            ledger_wf(final(self)@),
            match done {
                Ok(()) => reward_fault(old(self)@, miner@, reward) is None && final(self)@
                    == reward_applied(old(self)@, miner@, reward),
                Err(e) => reward_fault(old(self)@, miner@, reward) == Some(e@) && final(self)@
                    == old(self)@,
            },
    {
        proof {
            use_type_invariant(&*self);
        }
        let mut account = self.get_account(miner);
        match account.deposit(reward) {
            Err(e) => {
                return Err(e);
            },
            Ok(()) => {},
        }
        self.update_account(account);
        Ok(())
    }

    /// Every account on record, each once, in no particular order.
    pub fn get_all_accounts(&self) -> (accounts: Vec<Account>)
        ensures
            ledger_wf(self@),
            accounts@.len() == self@.dom().len(),
            forall|i: int|
                0 <= i < accounts@.len() ==> self@.contains_key((#[trigger] accounts@[i])@.address)
                    && self@[accounts@[i]@.address] == accounts@[i]@,
            forall|i: int, j: int|
                0 <= i < j < accounts@.len() ==> (#[trigger] accounts@[i])@.address != (
                #[trigger] accounts@[j])@.address,
    {
        proof {
            use_type_invariant(self);
        }
        let list = entries_list(&self.accounts);
        let mut accounts: Vec<Account> = Vec::new();
        let mut i: usize = 0;
        while i < list.len()
            invariant
                i <= list@.len(),
                accounts@.len() == i,
                forall|k: int| 0 <= k < i ==> (#[trigger] accounts@[k])@ == list@[k].1@,
            decreases list@.len() - i,
        {
            let account = list[i].1.clone();
            accounts.push(account);
            i = i + 1;
        }
        proof {
            assert forall|k: int| 0 <= k < accounts@.len() implies (#[trigger] accounts@[k])@.address
                == list@[k].0@ && self@.contains_key(accounts@[k]@.address)
                && self@[accounts@[k]@.address] == accounts@[k]@ by {
                assert(self@.contains_key(list@[k].0@));
            }
        }
        accounts
    }
}

impl Clone for AccountState {
    fn clone(&self) -> (copy: Self)
        ensures
            copy@ == self@,
    {
        proof {
            use_type_invariant(self);
        }
        AccountState { accounts: entries_clone(&self.accounts) }
    }
}

} // verus!
