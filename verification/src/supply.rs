//! The money supply: the sum of all balances, and how transfers, rewards and
//! mining change it. A transfer burns its fee; a reward mints its amount.

use crate::account::{
    account_at, ledger_wf, reward_applied, reward_fault, sender_paid, transfer_applied,
    transfer_fault, AccountView, Ledger,
};
use crate::block::BlockView;
use crate::chain::{replay, replay_chain, settle, ChainView};
use crate::transaction::TransactionView;
use vstd::prelude::*;

verus! {

/// The sum of the balances of all accounts on record.
pub open spec fn total_balance(ledger: Ledger) -> int
    decreases ledger.dom().len(),
    when ledger.dom().finite()
{
    if ledger.dom().len() == 0 {
        0
    } else {
        let address = ledger.dom().choose();
        ledger[address].balance + total_balance(ledger.remove(address))
    }
}

/// The fees of the transfers among `transactions`.
pub open spec fn total_fees(transactions: Seq<TransactionView>) -> int
    decreases transactions.len(),
{
    if transactions.len() == 0 {
        0
    } else if transactions[0].is_coinbase() {
        total_fees(transactions.drop_first())
    } else {
        transactions[0].fee + total_fees(transactions.drop_first())
    }
}

/// The amounts of the coinbase transactions among `transactions`.
pub open spec fn total_minted(transactions: Seq<TransactionView>) -> int
    decreases transactions.len(),
{
    if transactions.len() == 0 {
        0
    } else if transactions[0].is_coinbase() {
        transactions[0].amount + total_minted(transactions.drop_first())
    } else {
        total_minted(transactions.drop_first())
    }
}

/// The fees of all transfers in `blocks`.
pub open spec fn chain_fees(blocks: Seq<BlockView>) -> int
    decreases blocks.len(),
{
    if blocks.len() == 0 {
        0
    } else {
        total_fees(blocks[0].transactions) + chain_fees(blocks.drop_first())
    }
}

/// The amounts of all coinbase transactions in `blocks`.
pub open spec fn chain_minted(blocks: Seq<BlockView>) -> int
    decreases blocks.len(),
{
    if blocks.len() == 0 {
        0
    } else {
        total_minted(blocks[0].transactions) + chain_minted(blocks.drop_first())
    }
}

/// The sum of all balances is the balance of any one account plus the sum over
/// the others.
pub proof fn lemma_total_balance_split(ledger: Ledger, address: Seq<char>)
    requires
        ledger.dom().finite(),
        ledger.contains_key(address),
    ensures
        total_balance(ledger) == ledger[address].balance + total_balance(ledger.remove(address)),
    decreases ledger.dom().len(),
{
    let chosen = ledger.dom().choose();
    if chosen != address {
        lemma_total_balance_split(ledger.remove(chosen), address);
        lemma_total_balance_split(ledger.remove(address), chosen);
        assert(ledger.remove(chosen).remove(address) =~= ledger.remove(address).remove(chosen));
    }
}

/// Recording an account changes the sum of all balances by the difference
/// between its balance and the balance that was on record for its address.
pub proof fn lemma_total_balance_insert(ledger: Ledger, address: Seq<char>, account: AccountView)
    requires
        ledger.dom().finite(),
    ensures
        total_balance(ledger.insert(address, account)) == total_balance(ledger) - (
        if ledger.contains_key(address) {
            ledger[address].balance as int
        } else {
            0
        }) + account.balance,
{
    let after = ledger.insert(address, account);
    lemma_total_balance_split(after, address);
    if ledger.contains_key(address) {
        lemma_total_balance_split(ledger, address);
        assert(after.remove(address) =~= ledger.remove(address));
    } else {
        assert(after.remove(address) =~= ledger);
    }
}

/// A transfer lowers the sum of all balances by exactly its fee: the fee is
/// burned.
pub proof fn lemma_transfer_burns_fee(
    ledger: Ledger,
    from: Seq<char>,
    to: Seq<char>,
    amount: u64,
    fee: u64,
    nonce: u64,
)
    requires
        ledger_wf(ledger),
        transfer_fault(ledger, from, to, amount, fee, nonce) is None,
    ensures
        ledger_wf(transfer_applied(ledger, from, to, amount, fee)),
        total_balance(transfer_applied(ledger, from, to, amount, fee)) == total_balance(ledger)
            - fee,
{
    let paid = sender_paid(ledger, from, amount, fee);
    lemma_total_balance_insert(
        ledger,
        from,
        account_at(ledger, from).debited(amount + fee).advanced(),
    );
    lemma_total_balance_insert(paid, to, account_at(paid, to).credited(amount as int));
}

/// A reward raises the sum of all balances by exactly its amount.
pub proof fn lemma_reward_mints(ledger: Ledger, miner: Seq<char>, reward: u64)
    requires
        ledger_wf(ledger),
        reward_fault(ledger, miner, reward) is None,
    ensures
        ledger_wf(reward_applied(ledger, miner, reward)),
        total_balance(reward_applied(ledger, miner, reward)) == total_balance(ledger) + reward,
{
    lemma_total_balance_insert(ledger, miner, account_at(ledger, miner).credited(reward as int));
}

/// Settling transfers lowers the sum of all balances by the sum of their fees.
pub proof fn lemma_settle_burns_fees(ledger: Ledger, transactions: Seq<TransactionView>)
    requires
        ledger_wf(ledger),
        settle(ledger, transactions) is Ok,
    ensures
        ledger_wf(settle(ledger, transactions)->Ok_0),
        total_balance(settle(ledger, transactions)->Ok_0) == total_balance(ledger) - total_fees(
            transactions,
        ),
    decreases transactions.len(),
{
    if transactions.len() > 0 {
        let first = transactions[0];
        let rest = transactions.drop_first();
        if first.is_coinbase() {
            lemma_settle_burns_fees(ledger, rest);
        } else {
            lemma_transfer_burns_fee(
                ledger,
                first.sender,
                first.recipient,
                first.amount,
                first.fee,
                first.nonce,
            );
            lemma_settle_burns_fees(
                transfer_applied(ledger, first.sender, first.recipient, first.amount, first.fee),
                rest,
            );
        }
    }
}

/// Replaying transactions changes the sum of all balances by what their
/// coinbases mint less what their transfers burn.
pub proof fn lemma_replay_supply(ledger: Ledger, transactions: Seq<TransactionView>)
    requires
        ledger_wf(ledger),
        replay(ledger, transactions) is Ok,
    ensures
        ledger_wf(replay(ledger, transactions)->Ok_0),
        total_balance(replay(ledger, transactions)->Ok_0) == total_balance(ledger) + total_minted(
            transactions,
        ) - total_fees(transactions),
    decreases transactions.len(),
{
    if transactions.len() > 0 {
        let first = transactions[0];
        let rest = transactions.drop_first();
        if first.is_coinbase() {
            lemma_reward_mints(ledger, first.recipient, first.amount);
            lemma_replay_supply(reward_applied(ledger, first.recipient, first.amount), rest);
        } else {
            lemma_transfer_burns_fee(
                ledger,
                first.sender,
                first.recipient,
                first.amount,
                first.fee,
                first.nonce,
            );
            lemma_replay_supply(
                transfer_applied(ledger, first.sender, first.recipient, first.amount, first.fee),
                rest,
            );
        }
    }
}

/// The accounts rebuilt from a chain hold, in sum, what the chain's coinbases
/// minted less what its transfers burned.
pub proof fn lemma_replay_chain_supply(ledger: Ledger, blocks: Seq<BlockView>)
    requires
        ledger_wf(ledger),
        replay_chain(ledger, blocks) is Ok,
    ensures
        ledger_wf(replay_chain(ledger, blocks)->Ok_0),
        total_balance(replay_chain(ledger, blocks)->Ok_0) == total_balance(ledger) + chain_minted(
            blocks,
        ) - chain_fees(blocks),
    decreases blocks.len(),
{
    if blocks.len() > 0 {
        let rest = blocks.drop_first();
        lemma_replay_supply(ledger, blocks[0].transactions);
        lemma_replay_chain_supply(replay(ledger, blocks[0].transactions)->Ok_0, rest);
    }
}

/// Mining a block changes the sum of all balances by the reward less the fees
/// of the transfers that waited.
pub proof fn lemma_mining_supply(before: ChainView, miner: Seq<char>)
    requires
        before.well_formed(),
        before.mining_fault(miner) is None,
    ensures
        total_balance(before.mined_ledger(miner)) == total_balance(before.accounts)
            + before.mining_reward - total_fees(before.pending),
{
    lemma_settle_burns_fees(before.accounts, before.pending);
    lemma_reward_mints(
        settle(before.accounts, before.pending)->Ok_0,
        miner,
        before.mining_reward,
    );
}

} // verus!
