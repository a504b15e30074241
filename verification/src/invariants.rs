//! What stays true as the ledger runs: nonces never fall, a chain grown by
//! mining passes validation, and the accounts agree with the history that the
//! chain records.

use crate::account::{
    account_at, ledger_wf, reward_applied, reward_fault, transfer_applied, transfer_fault, Account,
    AccountFault, Ledger,
};
use crate::block::{Block, BlockView};
use crate::chain::{
    admissible, is_genesis, listed_accounts, recorded, recovered_ledger, replay, replay_chain,
    settle, ChainView,
};
use crate::storage::{lemma_sorted_by_index, ordered_by_index, sorted_by_index};
use crate::text::has_leading_zeros;
use crate::transaction::{Transaction, TransactionFault, TransactionView};
use vstd::prelude::*;

verus! {

/// A transfer lowers no account's nonce.
pub proof fn lemma_transfer_keeps_nonces(
    ledger: Ledger,
    from: Seq<char>,
    to: Seq<char>,
    amount: u64,
    fee: u64,
    nonce: u64,
    address: Seq<char>,
)
    requires
        transfer_fault(ledger, from, to, amount, fee, nonce) is None,
    ensures
        account_at(transfer_applied(ledger, from, to, amount, fee), address).nonce >= account_at(
            ledger,
            address,
        ).nonce,
{
}

/// A reward changes no account's nonce.
pub proof fn lemma_reward_keeps_nonces(
    ledger: Ledger,
    miner: Seq<char>,
    reward: u64,
    address: Seq<char>,
)
    requires
        reward_fault(ledger, miner, reward) is None,
    ensures
        account_at(reward_applied(ledger, miner, reward), address).nonce == account_at(
            ledger,
            address,
        ).nonce,
{
}

/// Settling transfers lowers no account's nonce.
pub proof fn lemma_settle_keeps_nonces(
    ledger: Ledger,
    transactions: Seq<TransactionView>,
    address: Seq<char>,
)
    requires
        settle(ledger, transactions) is Ok,
    ensures
        account_at(settle(ledger, transactions)->Ok_0, address).nonce >= account_at(
            ledger,
            address,
        ).nonce,
    decreases transactions.len(),
{
    if transactions.len() > 0 {
        let first = transactions[0];
        if first.is_coinbase() {
            lemma_settle_keeps_nonces(ledger, transactions.drop_first(), address);
        } else {
            lemma_transfer_keeps_nonces(
                ledger,
                first.sender,
                first.recipient,
                first.amount,
                first.fee,
                first.nonce,
                address,
            );
            lemma_settle_keeps_nonces(
                transfer_applied(ledger, first.sender, first.recipient, first.amount, first.fee),
                transactions.drop_first(),
                address,
            );
        }
    }
}

/// Replaying transactions lowers no account's nonce.
pub proof fn lemma_replay_keeps_nonces(
    ledger: Ledger,
    transactions: Seq<TransactionView>,
    address: Seq<char>,
)
    requires
        replay(ledger, transactions) is Ok,
    ensures
        account_at(replay(ledger, transactions)->Ok_0, address).nonce >= account_at(
            ledger,
            address,
        ).nonce,
    decreases transactions.len(),
{
    if transactions.len() > 0 {
        let first = transactions[0];
        if first.is_coinbase() {
            lemma_reward_keeps_nonces(ledger, first.recipient, first.amount, address);
            lemma_replay_keeps_nonces(
                reward_applied(ledger, first.recipient, first.amount),
                transactions.drop_first(),
                address,
            );
        } else {
            lemma_transfer_keeps_nonces(
                ledger,
                first.sender,
                first.recipient,
                first.amount,
                first.fee,
                first.nonce,
                address,
            );
            lemma_replay_keeps_nonces(
                transfer_applied(ledger, first.sender, first.recipient, first.amount, first.fee),
                transactions.drop_first(),
                address,
            );
        }
    }
}

/// Mining a block lowers no account's nonce.
pub proof fn lemma_mining_keeps_nonces(before: ChainView, miner: Seq<char>, address: Seq<char>)
    requires
        before.mining_fault(miner) is None,
    ensures
        account_at(before.mined_ledger(miner), address).nonce >= account_at(
            before.accounts,
            address,
        ).nonce,
{
    lemma_settle_keeps_nonces(before.accounts, before.pending, address);
    lemma_reward_keeps_nonces(
        settle(before.accounts, before.pending)->Ok_0,
        miner,
        before.mining_reward,
        address,
    );
}

/// A chain grown from a genesis block by mining passes validation, and each of
/// its blocks stands at its index.
pub proof fn lemma_linked_is_valid(chain: ChainView)
    requires
        chain.linked(),
    ensures
        chain.valid(),
        forall|i: int| 0 <= i < chain.chain.len() ==> (#[trigger] chain.chain[i]).index == i,
{
}

/// In a chain grown from a genesis block by mining, every block but the first
/// carries the hash of its content, with as many leading zeros as the
/// difficulty asks for, and follows the block whose index is one less than its
/// own: it names that block's hash.
pub proof fn lemma_linked_block(chain: ChainView, block: BlockView)
    requires
        chain.linked(),
        chain.chain.contains(block),
        block.index > 0,
    ensures
        block.sealed(),
        has_leading_zeros(block.hash, chain.difficulty as nat),
        block.index < chain.chain.len(),
        chain.chain[block.index as int] == block,
        chain.chain[block.index - 1].index == block.index - 1,
        block.previous_hash == chain.chain[block.index - 1].hash,
{
    let i = choose|i: int| 0 <= i < chain.chain.len() && chain.chain[i] == block;
    assert(chain.chain[i].index == i);
    if block.index - 1 > 0 {
        assert(chain.chain[block.index - 1].index == block.index - 1);
    }
}

/// A transaction that is admitted is admissible: a coinbase, or signed by its
/// sender with a fee of at least the minimum. The waiting transactions stay
/// admissible.
pub proof fn lemma_admitted_is_admissible(chain: ChainView, transaction: TransactionView)
    requires
        chain.well_formed(),
        chain.admission_fault(transaction) is None,
    ensures
        admissible(transaction, chain.minimum_fee),
        chain.admitted(transaction).well_formed(),
{
    let after = chain.admitted(transaction);
    assert forall|i: int| 0 <= i < after.pending.len() implies admissible(
        #[trigger] after.pending[i],
        after.minimum_fee,
    ) by {
        if i < chain.pending.len() {
            assert(after.pending[i] == chain.pending[i]);
        }
    }
}

/// Whether no coinbase is among `transactions`.
pub open spec fn without_coinbase(transactions: Seq<TransactionView>) -> bool {
    forall|i: int| 0 <= i < transactions.len() ==> !(#[trigger] transactions[i]).is_coinbase()
}

/// Replaying transfers and then a last transaction is replaying the list that
/// ends with it.
pub proof fn lemma_replay_push(
    ledger: Ledger,
    transactions: Seq<TransactionView>,
    last: TransactionView,
)
    ensures
        replay(ledger, transactions.push(last)) == (match replay(ledger, transactions) {
            Ok(next) => replay(next, seq![last]),
            Err(f) => Err(f),
        }),
    decreases transactions.len(),
{
    if transactions.len() == 0 {
        assert(transactions.push(last) =~= seq![last]);
    } else {
        let first = transactions[0];
        let next = if first.is_coinbase() {
            reward_applied(ledger, first.recipient, first.amount)
        } else {
            transfer_applied(ledger, first.sender, first.recipient, first.amount, first.fee)
        };
        assert(transactions.push(last).drop_first() =~= transactions.drop_first().push(last));
        lemma_replay_push(next, transactions.drop_first(), last);
    }
}

/// Settling a list without coinbase is replaying it.
pub proof fn lemma_settle_is_replay(ledger: Ledger, transactions: Seq<TransactionView>)
    requires
        without_coinbase(transactions),
    ensures
        settle(ledger, transactions) == replay(ledger, transactions),
    decreases transactions.len(),
{
    if transactions.len() > 0 {
        let first = transactions[0];
        let rest = transactions.drop_first();
        assert forall|i: int| 0 <= i < rest.len() implies !(#[trigger] rest[i]).is_coinbase() by {
            assert(rest[i] == transactions[i + 1]);
        }
        lemma_settle_is_replay(ledger, rest);
        lemma_settle_is_replay(
            transfer_applied(ledger, first.sender, first.recipient, first.amount, first.fee),
            rest,
        );
    }
}

/// Replaying a chain and then one more block is replaying the chain that ends
/// with that block.
pub proof fn lemma_replay_chain_push(ledger: Ledger, blocks: Seq<BlockView>, last: BlockView)
    ensures
        replay_chain(ledger, blocks.push(last)) == (match replay_chain(ledger, blocks) {
            Ok(next) => replay(next, last.transactions),
            Err(f) => Err(f),
        }),
    decreases blocks.len(),
{
    let longer = blocks.push(last);
    if blocks.len() == 0 {
        assert(longer[0] == last);
        assert(longer.drop_first() =~= Seq::<BlockView>::empty());
        match replay(ledger, last.transactions) {
            Ok(next) => {
                assert(replay_chain(next, longer.drop_first()) == Ok::<
                    Ledger,
                    AccountFault,
                >(next));
            },
            Err(_) => {},
        }
    } else {
        assert(longer[0] == blocks[0]);
        assert(longer.drop_first() =~= blocks.drop_first().push(last));
        match replay(ledger, blocks[0].transactions) {
            Ok(next) => lemma_replay_chain_push(next, blocks.drop_first(), last),
            Err(_) => {},
        }
    }
}

/// Mining keeps the accounts in step with the chain: if the accounts are what
/// replaying the chain from the ledger `origin` gives, and no coinbase waits,
/// then after a block is mined the accounts are again what replaying the
/// chain, now longer by that block, gives from `origin`.
pub proof fn lemma_mining_keeps_history(
    before: ChainView,
    origin: Ledger,
    miner: Seq<char>,
    id: Seq<char>,
    timestamp: Seq<char>,
    block: BlockView,
)
    requires
        replay_chain(origin, before.chain) == Ok::<Ledger, AccountFault>(
            before.accounts,
        ),
        without_coinbase(before.pending),
        before.mining_fault(miner) is None,
        before.seals(miner, id, timestamp, block),
    ensures
        replay_chain(origin, before.after_mining(miner, block).chain) == Ok::<
            Ledger,
            AccountFault,
        >(before.after_mining(miner, block).accounts),
{
    let reward = before.reward_transaction(miner, id, timestamp);
    lemma_replay_chain_push(origin, before.chain, block);
    lemma_replay_push(before.accounts, before.pending, reward);
    lemma_settle_is_replay(before.accounts, before.pending);
    let settled = settle(before.accounts, before.pending)->Ok_0;
    assert(seq![reward][0] == reward);
    assert(reward.is_coinbase());
    assert(seq![reward].drop_first() =~= Seq::<TransactionView>::empty());
    assert(replay(reward_applied(settled, miner, before.mining_reward), seq![reward].drop_first())
        == Ok::<Ledger, AccountFault>(
        reward_applied(settled, miner, before.mining_reward),
    ));
    assert(block.transactions == before.pending.push(reward));
}

/// Whether the indices rise strictly along the list.
pub open spec fn ascending(blocks: Seq<BlockView>) -> bool {
    forall|i: int, j: int| 0 <= i < j < blocks.len() ==> blocks[i].index < blocks[j].index
}

/// A list whose indices never fall is the only such list of its blocks, if
/// no two of these have the same index.
pub proof fn lemma_ordered_is_unique(ordered: Seq<BlockView>, chain: Seq<BlockView>)
    requires
        ordered_by_index(ordered),
        ascending(chain),
        ordered.to_multiset() == chain.to_multiset(),
    ensures
        ordered == chain,
    decreases chain.len(),
{
    broadcast use vstd::seq_lib::group_to_multiset_ensures;

    assert(ordered.len() == chain.len()) by {
        assert(ordered.to_multiset().len() == ordered.len());
        assert(chain.to_multiset().len() == chain.len());
    }
    if chain.len() == 0 {
        assert(ordered =~= chain);
    } else {
        let top = ordered.last();
        assert(ordered.to_multiset().contains(top)) by {
            assert(ordered[ordered.len() - 1] == top);
        }
        assert(chain.to_multiset().contains(top));
        let k = choose|k: int| 0 <= k < chain.len() && chain[k] == top;
        assert(chain.to_multiset().contains(chain.last())) by {
            assert(chain[chain.len() - 1] == chain.last());
        }
        assert(ordered.to_multiset().contains(chain.last()));
        let m = choose|m: int| 0 <= m < ordered.len() && ordered[m] == chain.last();
        assert(ordered[m].index <= ordered[ordered.len() - 1].index);
        assert(k == chain.len() - 1);
        assert(top == chain.last());
        let ordered_rest = ordered.drop_last();
        let chain_rest = chain.drop_last();
        assert(ordered =~= ordered_rest.push(top));
        assert(chain =~= chain_rest.push(top));
        assert(ordered_rest.to_multiset() =~= ordered_rest.to_multiset().insert(top).remove(top));
        assert(chain_rest.to_multiset() =~= chain_rest.to_multiset().insert(top).remove(top));
        assert(ordered_rest.to_multiset() == chain_rest.to_multiset());
        assert forall|i: int, j: int| 0 <= i <= j < ordered_rest.len() implies ordered_rest[i].index
            <= ordered_rest[j].index by {
            assert(ordered_rest[i] == ordered[i] && ordered_rest[j] == ordered[j]);
        }
        assert forall|i: int, j: int| 0 <= i < j < chain_rest.len() implies chain_rest[i].index
            < chain_rest[j].index by {
            assert(chain_rest[i] == chain[i] && chain_rest[j] == chain[j]);
        }
        lemma_ordered_is_unique(ordered_rest, chain_rest);
    }
}

/// Reading back the blocks of a chain in any order and sorting them by index
/// gives the chain, if its indices rise strictly.
pub proof fn lemma_sorting_restores_chain(chain: Seq<BlockView>, records: Seq<BlockView>)
    requires
        ascending(chain),
        records.to_multiset() == chain.to_multiset(),
    ensures
        sorted_by_index(records) == chain,
{
    lemma_sorted_by_index(records);
    lemma_ordered_is_unique(sorted_by_index(records), chain);
}

/// Whether `accounts` lists the accounts of `ledger`, each once.
pub open spec fn lists_ledger(accounts: Seq<Account>, ledger: Ledger) -> bool {
    &&& accounts.len() == ledger.dom().len()
    &&& forall|i: int|
        0 <= i < accounts.len() ==> ledger.contains_key((#[trigger] accounts[i])@.address)
            && ledger[accounts[i]@.address] == accounts[i]@
    &&& forall|i: int, j: int|
        0 <= i < j < accounts.len() ==> (#[trigger] accounts[i])@.address != (
        #[trigger] accounts[j])@.address
}

proof fn lemma_recorded_entries(ledger: Ledger, accounts: Seq<Account>)
    requires
        forall|i: int, j: int|
            0 <= i < j < accounts.len() ==> (#[trigger] accounts[i])@.address != (
            #[trigger] accounts[j])@.address,
    ensures
        forall|a: Seq<char>| #[trigger]
            recorded(ledger, accounts).contains_key(a) <==> ledger.contains_key(a) || exists|
                i: int,
            |
                0 <= i < accounts.len() && (#[trigger] accounts[i])@.address == a,
        forall|i: int|
            0 <= i < accounts.len() ==> recorded(ledger, accounts)[(
            #[trigger] accounts[i])@.address] == accounts[i]@,
        forall|a: Seq<char>|
            ledger.contains_key(a) && !(exists|i: int|
                0 <= i < accounts.len() && (#[trigger] accounts[i])@.address == a)
                ==> #[trigger] recorded(ledger, accounts)[a] == ledger[a],
    decreases accounts.len(),
{
    if accounts.len() > 0 {
        let first = accounts[0];
        let rest = accounts.drop_first();
        let next = ledger.insert(first@.address, first@);
        assert forall|i: int, j: int| 0 <= i < j < rest.len() implies (#[trigger] rest[i])@.address
            != (#[trigger] rest[j])@.address by {
            assert(rest[i] == accounts[i + 1] && rest[j] == accounts[j + 1]);
        }
        lemma_recorded_entries(next, rest);
        let out = recorded(ledger, accounts);
        assert(out == recorded(next, rest));
        assert forall|a: Seq<char>| #[trigger]
            out.contains_key(a) <==> ledger.contains_key(a) || exists|i: int|
                0 <= i < accounts.len() && (#[trigger] accounts[i])@.address == a by {
            if out.contains_key(a) {
                if !next.contains_key(a) {
                    let i = choose|i: int| 0 <= i < rest.len() && (#[trigger] rest[i])@.address == a;
                    assert(accounts[i + 1]@.address == a);
                } else if !ledger.contains_key(a) {
                    assert(accounts[0]@.address == a);
                }
            }
            if ledger.contains_key(a) {
                assert(next.contains_key(a));
            }
            if exists|i: int| 0 <= i < accounts.len() && (#[trigger] accounts[i])@.address == a {
                let i = choose|i: int|
                    0 <= i < accounts.len() && (#[trigger] accounts[i])@.address == a;
                if i == 0 {
                    assert(next.contains_key(a));
                } else {
                    assert(rest[i - 1]@.address == a);
                }
            }
        }
        assert forall|i: int| 0 <= i < accounts.len() implies out[(
        #[trigger] accounts[i])@.address] == accounts[i]@ by {
            if i == 0 {
                let a = first@.address;
                if exists|k: int| 0 <= k < rest.len() && (#[trigger] rest[k])@.address == a {
                    let k = choose|k: int| 0 <= k < rest.len() && (#[trigger] rest[k])@.address == a;
                    assert(rest[k] == accounts[k + 1]);
                    assert(accounts[0]@.address != accounts[k + 1]@.address);
                }
                assert(next.contains_key(a));
            } else {
                assert(rest[i - 1] == accounts[i]);
            }
        }
        assert forall|a: Seq<char>|
            ledger.contains_key(a) && !(exists|i: int|
                0 <= i < accounts.len() && (#[trigger] accounts[i])@.address == a)
                implies #[trigger] out[a] == ledger[a] by {
            assert(a != first@.address) by {
                if a == first@.address {
                    assert(accounts[0]@.address == a);
                }
            }
            assert(next.contains_key(a));
            if exists|k: int| 0 <= k < rest.len() && (#[trigger] rest[k])@.address == a {
                let k = choose|k: int| 0 <= k < rest.len() && (#[trigger] rest[k])@.address == a;
                assert(accounts[k + 1]@.address == a);
            }
        }
    }
}

/// Recording, on an empty ledger, a list of the accounts of a ledger gives
/// that ledger back.
pub proof fn lemma_recording_restores_ledger(ledger: Ledger, accounts: Seq<Account>)
    requires
        ledger_wf(ledger),
        lists_ledger(accounts, ledger),
    ensures
        recorded(Ledger::empty(), accounts) == ledger,
{
    lemma_recorded_entries(Ledger::empty(), accounts);
    let out = recorded(Ledger::empty(), accounts);
    let addresses = Seq::new(accounts.len(), |i: int| accounts[i]@.address);
    assert(addresses.no_duplicates());
    addresses.unique_seq_to_set();
    assert(addresses.to_set().subset_of(ledger.dom())) by {
        assert forall|a: Seq<char>| addresses.to_set().contains(a) implies ledger.dom().contains(
            a,
        ) by {
            let i = choose|i: int| 0 <= i < addresses.len() && addresses[i] == a;
            assert(ledger.contains_key(accounts[i]@.address));
        }
    }
    vstd::set_lib::lemma_len_subset(addresses.to_set(), ledger.dom());
    vstd::set_lib::lemma_subset_equality(addresses.to_set(), ledger.dom());
    assert forall|a: Seq<char>| out.contains_key(a) <==> ledger.contains_key(a) by {
        if ledger.contains_key(a) {
            assert(addresses.to_set().contains(a));
            let i = choose|i: int| 0 <= i < addresses.len() && addresses[i] == a;
            assert(accounts[i]@.address == a);
        }
        if out.contains_key(a) {
            let i = choose|i: int| 0 <= i < accounts.len() && (#[trigger] accounts[i])@.address == a;
            assert(ledger.contains_key(accounts[i]@.address));
        }
    }
    assert forall|a: Seq<char>| out.contains_key(a) implies out[a] == ledger[a] by {
        let i = choose|i: int| 0 <= i < accounts.len() && (#[trigger] accounts[i])@.address == a;
        assert(out[accounts[i]@.address] == accounts[i]@);
    }
    assert(out =~= ledger);
}

/// A ledger that is stopped and started again over its store is the same
/// ledger: if the store gives back the blocks of a chain grown by mining, in
/// any order, and a list of its accounts, then sorting the blocks by index
/// gives the chain, and recovery arrives at the ledger. A ledger without
/// accounts is rebuilt from the chain, so the chain must then account for
/// none.
pub proof fn lemma_restart_restores(
    chain: ChainView,
    stored_blocks: Seq<BlockView>,
    stored_accounts: Seq<Account>,
)
    requires
        chain.linked(),
        ledger_wf(chain.accounts),
        stored_blocks.to_multiset() == chain.chain.to_multiset(),
        lists_ledger(stored_accounts, chain.accounts),
        stored_accounts.len() == 0 ==> replay_chain(Ledger::empty(), chain.chain) == Ok::<
            Ledger,
            AccountFault,
        >(chain.accounts),
    ensures
        sorted_by_index(stored_blocks) == chain.chain,
        recovered_ledger(chain.chain, listed_accounts(stored_accounts)) == Ok::<
            Ledger,
            AccountFault,
        >(chain.accounts),
{
    assert(forall|i: int| 0 <= i < chain.chain.len() ==> (#[trigger] chain.chain[i]).index == i);
    lemma_sorting_restores_chain(chain.chain, stored_blocks);
    lemma_recording_restores_ledger(chain.accounts, stored_accounts);
}

/// Where no account was read, recovery arrives at what replaying the chain
/// from an empty ledger gives, whether reading failed or the accounts tree
/// held no record.
pub proof fn lemma_lost_accounts_are_rebuilt(blocks: Seq<BlockView>)
    ensures
        recovered_ledger(blocks, None) == replay_chain(Ledger::empty(), blocks),
        recovered_ledger(blocks, listed_accounts(Seq::empty())) == replay_chain(
            Ledger::empty(),
            blocks,
        ),
{
}

/// The genesis block is the only block of index 0 in a chain grown from it by
/// mining.
pub proof fn lemma_genesis_is_unique(chain: ChainView)
    requires
        chain.linked(),
    ensures
        is_genesis(chain.chain[0]),
        forall|i: int| 0 < i < chain.chain.len() ==> (#[trigger] chain.chain[i]).index != 0,
{
}

/// Mining leaves the first block as it was and adds a block whose index is
/// not 0; in a chain grown from a genesis block the genesis block therefore
/// stays the only block of index 0.
pub proof fn lemma_mining_keeps_genesis(
    before: ChainView,
    miner: Seq<char>,
    id: Seq<char>,
    timestamp: Seq<char>,
    block: BlockView,
)
    requires
        before.chain.len() > 0,
        before.seals(miner, id, timestamp, block),
    ensures
        before.after_mining(miner, block).chain[0] == before.chain[0],
        block.index > 0,
        before.linked() ==> before.after_mining(miner, block).linked(),
{
    let after = before.after_mining(miner, block);
    if before.linked() {
        assert(before.chain.len() == 1 ==> before.tip().index == 0);
        assert(before.tip().index == before.chain.len() - 1);
        assert forall|i: int| 1 <= i < after.chain.len() implies {
            &&& (#[trigger] after.chain[i]).index == i
            &&& after.chain[i].sealed()
            &&& has_leading_zeros(after.chain[i].hash, after.difficulty as nat)
            &&& after.chain[i].previous_hash == after.chain[i - 1].hash
        } by {
            if i < before.chain.len() {
                assert(after.chain[i] == before.chain[i]);
            }
        }
    }
}

/// A block that is read back with the fields that were stored has the same
/// hash, and is sealed if and only if the stored one was.
pub proof fn lemma_same_block_same_hash(stored: Block, read: Block)
    requires
        read@ == stored@,
    ensures
        read@.expected_hash() == stored@.expected_hash(),
        read@.sealed() == stored@.sealed(),
{
}

/// A transaction that is read back with the fields that were stored is signed
/// over the same bytes and gets the same verdict on its signature.
pub proof fn lemma_same_transaction_same_verdict(stored: Transaction, read: Transaction)
    requires
        read@ == stored@,
    ensures
        read@.signing_bytes() == stored@.signing_bytes(),
        read@.signature_check() == stored@.signature_check(),
{
}

/// A transfer that is signed by its sender, pays at least the minimum fee and
/// carries the sender's nonce, from a sender whose balance covers amount and
/// fee, is admitted, unless no index is left for the next block.
pub proof fn lemma_admission_succeeds(chain: ChainView, transaction: TransactionView)
    requires
        !transaction.is_coinbase(),
        transaction.signature_check() == Ok::<bool, TransactionFault>(true),
        transaction.fee >= chain.minimum_fee,
        account_at(chain.accounts, transaction.sender).balance >= transaction.total_amount(),
        account_at(chain.accounts, transaction.sender).nonce == transaction.nonce,
        chain.tip().index < u64::MAX,
    ensures
        chain.admission_fault(transaction) is None,
        chain.admitted(transaction).pending == chain.pending.push(transaction),
{
}

/// A nonce that is not the sender's is refused with `InvalidNonce`, whatever
/// else holds of the transfer.
pub proof fn lemma_transfer_wrong_nonce(
    ledger: Ledger,
    from: Seq<char>,
    to: Seq<char>,
    amount: u64,
    fee: u64,
    nonce: u64,
)
    requires
        nonce != account_at(ledger, from).nonce,
    ensures
        transfer_fault(ledger, from, to, amount, fee, nonce) == Some(
            AccountFault::InvalidNonce { expected: account_at(ledger, from).nonce, got: nonce },
        ),
{
}

/// A balance below amount plus fee is refused with `InsufficientFunds`.
pub proof fn lemma_transfer_short_balance(
    ledger: Ledger,
    from: Seq<char>,
    to: Seq<char>,
    amount: u64,
    fee: u64,
    nonce: u64,
)
    requires
        nonce == account_at(ledger, from).nonce,
        account_at(ledger, from).balance < amount + fee,
    ensures
        transfer_fault(ledger, from, to, amount, fee, nonce) == Some(
            AccountFault::InsufficientFunds {
                required: amount + fee,
                available: account_at(ledger, from).balance as int,
            },
        ),
{
}

/// A balance of exactly amount plus fee is enough: the transfer succeeds and
/// leaves the sender nothing, or, where it pays itself, the amount. This holds
/// provided that the recipient's balance and the sender's nonce stay within
/// 64 bits.
pub proof fn lemma_transfer_exact_balance(
    ledger: Ledger,
    from: Seq<char>,
    to: Seq<char>,
    amount: u64,
    fee: u64,
    nonce: u64,
)
    requires
        nonce == account_at(ledger, from).nonce,
        account_at(ledger, from).balance == amount + fee,
        amount > 0,
        from != to ==> account_at(ledger, to).balance + amount <= u64::MAX,
        nonce < u64::MAX,
    ensures
        transfer_fault(ledger, from, to, amount, fee, nonce) is None,
        account_at(transfer_applied(ledger, from, to, amount, fee), from).balance == (if from
            == to {
            amount
        } else {
            0
        }),
        account_at(transfer_applied(ledger, from, to, amount, fee), from).nonce == nonce + 1,
        from != to ==> account_at(transfer_applied(ledger, from, to, amount, fee), to).balance
            == account_at(ledger, to).balance + amount,
{
}

/// An account that pays itself loses the fee, and its nonce advances.
pub proof fn lemma_transfer_to_oneself(
    ledger: Ledger,
    account: Seq<char>,
    amount: u64,
    fee: u64,
    nonce: u64,
)
    requires
        transfer_fault(ledger, account, account, amount, fee, nonce) is None,
    ensures
        account_at(transfer_applied(ledger, account, account, amount, fee), account).balance
            == account_at(ledger, account).balance - fee,
        account_at(transfer_applied(ledger, account, account, amount, fee), account).nonce == nonce
            + 1,
{
}

/// A transfer uses up its nonce: once it is applied, another transfer of the
/// same sender with the same nonce is refused with `InvalidNonce`, whoever the
/// first one paid.
pub proof fn lemma_transfer_uses_up_nonce(
    ledger: Ledger,
    from: Seq<char>,
    to: Seq<char>,
    amount: u64,
    fee: u64,
    nonce: u64,
    next_to: Seq<char>,
    next_amount: u64,
    next_fee: u64,
)
    requires
        transfer_fault(ledger, from, to, amount, fee, nonce) is None,
    ensures
        transfer_fault(
            transfer_applied(ledger, from, to, amount, fee),
            from,
            next_to,
            next_amount,
            next_fee,
            nonce,
        ) == Some(AccountFault::InvalidNonce { expected: (nonce + 1) as u64, got: nonce }),
{
}

} // verus!
