//! The ledger itself: the chain of blocks, the transactions that wait for the
//! next block, and the accounts.
//!
//! A block is sealed by searching, from zero upwards, for the first proof that
//! gives its hash enough leading zeros. The timestamp of a block is fixed
//! before that search, so the same content always seals to the same block.
//! Mining is all or nothing: when it fails, nothing has changed.

use crate::account::{
    account_at, ledger_wf, reward_applied, reward_fault, transfer_applied, transfer_fault, Account,
    AccountError, AccountFault, AccountState, Ledger,
};
use crate::block::{
    block_views, hash_with_proof, hashed_prefix, hashed_suffix, write_hashed_prefix,
    write_hashed_suffix, Block, BlockView,
};
use crate::crypto::Address;
use crate::digest::text_digest;
use crate::stamp::{new_id, now};
use crate::storage::{StorageError, StorageFault};
use crate::text::{decimal_text, has_leading_zeros, push_decimal, starts_with_zeros};
use crate::transaction::{
    clone_transactions, system_address, transaction_views, Transaction, TransactionError,
    TransactionFault, TransactionView,
};
use vstd::prelude::*;
use vstd::string::StringExecFns;

verus! {

/// The number of leading zeros that a block hash needs, unless set otherwise.
pub const DEFAULT_DIFFICULTY: u8 = 4;

/// The reward for a mined block, unless set otherwise: 50 coins.
pub const DEFAULT_MINING_REWARD: u64 = 5_000_000_000;

/// The least fee of a transfer, unless set otherwise: a hundredth of a coin.
pub const DEFAULT_MINIMUM_FEE: u64 = 1_000_000;

/// What can go wrong with an operation on the chain.
#[derive(Debug)]
pub enum BlockchainError {
    TransactionError(TransactionError),
    AccountError(AccountError),
    StorageError(StorageError),
    InvalidBlock(String),
    InvalidChain(String),
    SystemError(String),
}

/// A `BlockchainError` without its message text.
pub enum ChainFault {
    TransactionError(TransactionFault),
    AccountError(AccountFault),
    StorageError(StorageFault),
    InvalidBlock,
    InvalidChain,
    SystemError,
}

impl View for BlockchainError {
    type V = ChainFault;

    open spec fn view(&self) -> ChainFault {
        match *self {
            BlockchainError::TransactionError(e) => ChainFault::TransactionError(e@),
            BlockchainError::AccountError(e) => ChainFault::AccountError(e@),
            BlockchainError::StorageError(e) => ChainFault::StorageError(e@),
            BlockchainError::InvalidBlock(_) => ChainFault::InvalidBlock,
            BlockchainError::InvalidChain(_) => ChainFault::InvalidChain,
            BlockchainError::SystemError(_) => ChainFault::SystemError,
        }
    }
}

impl BlockchainError {
    /// The message a user is shown for this error.
    pub open spec fn message(self) -> Seq<char> {
        match self {
            BlockchainError::TransactionError(e) => "Transaction error: "@ + e.message(),
            BlockchainError::AccountError(e) => "Account error: "@ + e.message(),
            BlockchainError::StorageError(e) => "Storage error: "@ + e.message(),
            BlockchainError::InvalidBlock(m) => "Invalid block: "@ + m@,
            BlockchainError::InvalidChain(m) => "Invalid chain: "@ + m@,
            BlockchainError::SystemError(m) => "System error: "@ + m@,
        }
    }

    /// Writes the message a user is shown for this error.
    pub fn to_string(&self) -> (text: String)
        ensures
            text@ == self.message(),
    {
        match self {
            BlockchainError::TransactionError(e) => String::from_str("Transaction error: ").concat(
                e.to_string().as_str(),
            ),
            BlockchainError::AccountError(e) => String::from_str("Account error: ").concat(
                e.to_string().as_str(),
            ),
            BlockchainError::StorageError(e) => String::from_str("Storage error: ").concat(
                e.to_string().as_str(),
            ),
            BlockchainError::InvalidBlock(m) => String::from_str("Invalid block: ").concat(
                m.as_str(),
            ),
            BlockchainError::InvalidChain(m) => String::from_str("Invalid chain: ").concat(
                m.as_str(),
            ),
            BlockchainError::SystemError(m) => String::from_str("System error: ").concat(
                m.as_str(),
            ),
        }
    }
}

/// The ledger after the transfers among `transactions` are applied in order,
/// or the fault of the first that is refused. Coinbase transactions are passed
/// over.
pub open spec fn settle(ledger: Ledger, transactions: Seq<TransactionView>) -> Result<
    Ledger,
    AccountFault,
>
    decreases transactions.len(),
{
    if transactions.len() == 0 {
        Ok(ledger)
    } else {
        let first = transactions[0];
        if first.is_coinbase() {
            settle(ledger, transactions.drop_first())
        } else {
            match transfer_fault(
                ledger,
                first.sender,
                first.recipient,
                first.amount,
                first.fee,
                first.nonce,
            ) {
                Some(fault) => Err(fault),
                None => settle(
                    transfer_applied(
                        ledger,
                        first.sender,
                        first.recipient,
                        first.amount,
                        first.fee,
                    ),
                    transactions.drop_first(),
                ),
            }
        }
    }
}

/// The ledger after `transactions` are replayed in order, or the fault of the
/// first that is refused. A coinbase transaction pays its amount to its
/// recipient; any other is a transfer.
pub open spec fn replay(ledger: Ledger, transactions: Seq<TransactionView>) -> Result<
    Ledger,
    AccountFault,
>
    decreases transactions.len(),
{
    if transactions.len() == 0 {
        Ok(ledger)
    } else {
        let first = transactions[0];
        let fault = if first.is_coinbase() {
            reward_fault(ledger, first.recipient, first.amount)
        } else {
            transfer_fault(
                ledger,
                first.sender,
                first.recipient,
                first.amount,
                first.fee,
                first.nonce,
            )
        };
        let next = if first.is_coinbase() {
            reward_applied(ledger, first.recipient, first.amount)
        } else {
            transfer_applied(ledger, first.sender, first.recipient, first.amount, first.fee)
        };
        match fault {
            Some(f) => Err(f),
            None => replay(next, transactions.drop_first()),
        }
    }
}

/// The ledger after the transactions of `blocks` are replayed, block by block.
pub open spec fn replay_chain(ledger: Ledger, blocks: Seq<BlockView>) -> Result<
    Ledger,
    AccountFault,
>
    decreases blocks.len(),
{
    if blocks.len() == 0 {
        Ok(ledger)
    } else {
        match replay(ledger, blocks[0].transactions) {
            Err(f) => Err(f),
            Ok(next) => replay_chain(next, blocks.drop_first()),
        }
    }
}

/// The ledger in which each of `accounts` is recorded in turn under its
/// address.
pub open spec fn recorded(ledger: Ledger, accounts: Seq<Account>) -> Ledger
    decreases accounts.len(),
{
    if accounts.len() == 0 {
        ledger
    } else {
        recorded(ledger.insert(accounts[0]@.address, accounts[0]@), accounts.drop_first())
    }
}

/// Whether a block is a genesis block: index 0, no transactions, proof 1, the
/// previous hash "0", and the hash of this content.
pub open spec fn is_genesis(block: BlockView) -> bool {
    &&& block.version == 1
    &&& block.index == 0
    &&& block.transactions.len() == 0
    &&& block.proof == 1
    &&& block.previous_hash == seq!['0']
    &&& block.sealed()
}

/// Whether the hash of the block with this content and `proof` has
/// `difficulty` leading zeros.
pub open spec fn proof_meets(
    index: u64,
    timestamp: Seq<char>,
    transactions: Seq<TransactionView>,
    previous_hash: Seq<char>,
    proof: u64,
    difficulty: u8,
) -> bool {
    has_leading_zeros(
        text_digest(
            hashed_prefix(1, index, timestamp, transactions) + decimal_text(proof as nat)
                + hashed_suffix(previous_hash),
        ),
        difficulty as nat,
    )
}

/// Whether a transaction may wait for the next block: it is a coinbase, or it
/// is signed by its sender and pays at least the minimum fee.
pub open spec fn admissible(transaction: TransactionView, minimum_fee: u64) -> bool {
    transaction.is_coinbase() || (transaction.signature is Some && transaction.signature_check()
        == Ok::<bool, TransactionFault>(true) && transaction.fee >= minimum_fee)
}

/// The accounts that recovery arrives at: those that were read, each recorded
/// in turn, or, where none was read, those that replaying the chain from an
/// empty ledger gives.
pub open spec fn recovered_ledger(blocks: Seq<BlockView>, accounts: Option<Seq<Account>>) -> Result<
    Ledger,
    AccountFault,
> {
    match accounts {
        Some(list) => Ok(recorded(Ledger::empty(), list)),
        None => replay_chain(Ledger::empty(), blocks),
    }
}

/// A list of accounts as what was read, if it holds any: the accounts tree
/// holds no record when it was lost.
pub open spec fn listed_accounts(list: Seq<Account>) -> Option<Seq<Account>> {
    if list.len() > 0 {
        Some(list)
    } else {
        None
    }
}

/// The accounts that were read, if any was: reading may have failed, and the
/// accounts tree may hold no record.
pub open spec fn read_accounts(accounts: Result<Vec<Account>, StorageError>) -> Option<
    Seq<Account>,
> {
    match accounts {
        Ok(list) => listed_accounts(list@),
        Err(_) => None,
    }
}

/// How a ledger over a store starts.
pub enum Startup {
    /// The chain was read from the store.
    Recovered(Blockchain),
    /// The store held no block: the chain is new, and its genesis block is yet
    /// to be written to the store.
    Created(Blockchain),
}

/// The chain, the waiting transactions and the accounts.
pub struct Blockchain {
    chain: Vec<Block>,
    pending_transactions: Vec<Transaction>,
    account_state: AccountState,
    difficulty: u8,
    mining_reward: u64,
    minimum_fee: u64,
}

/// The ledger's state as a mathematical value.
pub struct ChainView {
    pub chain: Seq<BlockView>,
    pub pending: Seq<TransactionView>,
    pub accounts: Ledger,
    pub difficulty: u8,
    pub mining_reward: u64,
    pub minimum_fee: u64,
}

impl View for Blockchain {
    type V = ChainView;

    closed spec fn view(&self) -> ChainView {
        ChainView {
            chain: block_views(self.chain@),
            pending: transaction_views(self.pending_transactions@),
            accounts: self.account_state@,
            difficulty: self.difficulty,
            mining_reward: self.mining_reward,
            minimum_fee: self.minimum_fee,
        }
    }
}

impl ChainView {
    /// What every operation keeps: the chain is not empty, the accounts are
    /// recorded under their addresses, and every waiting transaction is
    /// admissible.
    pub open spec fn well_formed(self) -> bool {
        &&& self.chain.len() > 0
        &&& ledger_wf(self.accounts)
        &&& forall|i: int|
            0 <= i < self.pending.len() ==> admissible(#[trigger] self.pending[i], self.minimum_fee)
    }

    /// The latest block.
    pub open spec fn tip(self) -> BlockView {
        self.chain.last()
    }

    /// What a chain grown from a genesis block by mining looks like: the first
    /// block is a genesis block, and every later block stands at its index,
    /// carries the hash of its content with `difficulty` leading zeros, and
    /// names the hash of the block before it.
    pub open spec fn linked(self) -> bool {
        &&& self.chain.len() > 0
        &&& is_genesis(self.chain[0])
        &&& forall|i: int|
            1 <= i < self.chain.len() ==> {
                &&& (#[trigger] self.chain[i]).index == i
                &&& self.chain[i].sealed()
                &&& has_leading_zeros(self.chain[i].hash, self.difficulty as nat)
                &&& self.chain[i].previous_hash == self.chain[i - 1].hash
            }
    }

    /// What `is_valid` tests: every block but the first carries the hash of its
    /// content and names the hash of the block before it.
    pub open spec fn valid(self) -> bool {
        forall|i: int|
            1 <= i < self.chain.len() ==> (#[trigger] self.chain[i]).sealed()
                && self.chain[i].previous_hash == self.chain[i - 1].hash
    }

    /// Why a transaction is not admitted, if it is not. A coinbase is admitted
    /// as it is. For any other the checks come in this order: the signature,
    /// the fee, the sender's funds, the sender's nonce.
    pub open spec fn admission_fault(self, transaction: TransactionView) -> Option<ChainFault> {
        let sender = account_at(self.accounts, transaction.sender);
        if !transaction.is_coinbase() && transaction.signature_check() is Err {
            Some(ChainFault::TransactionError(transaction.signature_check()->Err_0))
        } else if !transaction.is_coinbase() && transaction.signature_check()
            == Ok::<bool, TransactionFault>(false) {
            Some(ChainFault::TransactionError(TransactionFault::InvalidSignature))
        } else if !transaction.is_coinbase() && transaction.fee < self.minimum_fee {
            Some(ChainFault::TransactionError(TransactionFault::InvalidAmount))
        } else if !transaction.is_coinbase() && sender.balance < transaction.total_amount() {
            Some(
                ChainFault::AccountError(
                    AccountFault::InsufficientFunds {
                        required: transaction.total_amount(),
                        available: sender.balance as int,
                    },
                ),
            )
        } else if !transaction.is_coinbase() && sender.nonce != transaction.nonce {
            Some(
                ChainFault::AccountError(
                    AccountFault::InvalidNonce { expected: sender.nonce, got: transaction.nonce },
                ),
            )
        } else if self.tip().index == u64::MAX {
            Some(ChainFault::SystemError)
        } else {
            None
        }
    }

    /// The state after `transaction` has joined the waiting transactions.
    pub open spec fn admitted(self, transaction: TransactionView) -> ChainView {
        ChainView { pending: self.pending.push(transaction), ..self }
    }

    /// The coinbase transaction that pays this chain's reward to `miner`.
    pub open spec fn reward_transaction(
        self,
        miner: Seq<char>,
        id: Seq<char>,
        timestamp: Seq<char>,
    ) -> TransactionView {
        TransactionView {
            version: 1,
            id,
            sender: system_address(),
            recipient: miner,
            amount: self.mining_reward,
            fee: 0,
            nonce: 0,
            signature: None,
            timestamp,
        }
    }

    /// Why mining for `miner` fails before a proof is searched, if it does: a
    /// waiting transfer is refused, the reward is refused, or there is no
    /// index left for the block.
    pub open spec fn mining_fault(self, miner: Seq<char>) -> Option<ChainFault> {
        match settle(self.accounts, self.pending) {
            Err(f) => Some(ChainFault::AccountError(f)),
            Ok(settled) => match reward_fault(settled, miner, self.mining_reward) {
                Some(f) => Some(ChainFault::AccountError(f)),
                None => if self.tip().index == u64::MAX {
                    Some(ChainFault::SystemError)
                } else {
                    None
                },
            },
        }
    }

    /// The accounts after the waiting transfers and the reward for `miner`.
    pub open spec fn mined_ledger(self, miner: Seq<char>) -> Ledger {
        reward_applied(settle(self.accounts, self.pending)->Ok_0, miner, self.mining_reward)
    }

    /// The transactions of the block that is mined for `miner`: those that
    /// wait, then the reward.
    pub open spec fn mined_transactions(
        self,
        miner: Seq<char>,
        id: Seq<char>,
        timestamp: Seq<char>,
    ) -> Seq<TransactionView> {
        self.pending.push(self.reward_transaction(miner, id, timestamp))
    }

    /// Whether `block` is the block that mining for `miner` at `timestamp`
    /// seals: it follows the tip, holds the waiting transactions and then the
    /// reward, and carries the least proof that gives its hash `difficulty`
    /// leading zeros.
    pub open spec fn seals(
        self,
        miner: Seq<char>,
        id: Seq<char>,
        timestamp: Seq<char>,
        block: BlockView,
    ) -> bool {
        &&& block.version == 1
        &&& block.index == self.tip().index + 1
        &&& block.timestamp == timestamp
        &&& block.transactions == self.mined_transactions(miner, id, timestamp)
        &&& block.previous_hash == self.tip().hash
        &&& block.sealed()
        &&& has_leading_zeros(block.hash, self.difficulty as nat)
        &&& forall|p: u64|
            p < block.proof ==> !#[trigger] proof_meets(
                block.index,
                timestamp,
                block.transactions,
                block.previous_hash,
                p,
                self.difficulty,
            )
    }

    /// Whether no proof at all seals the block that would be mined.
    pub open spec fn unminable(self, miner: Seq<char>, id: Seq<char>, timestamp: Seq<char>) -> bool {
        forall|p: u64|
            !#[trigger] proof_meets(
                (self.tip().index + 1) as u64,
                timestamp,
                self.mined_transactions(miner, id, timestamp),
                self.tip().hash,
                p,
                self.difficulty,
            )
    }

    /// The state after `block` was mined for `miner`.
    pub open spec fn after_mining(self, miner: Seq<char>, block: BlockView) -> ChainView {
        ChainView {
            chain: self.chain.push(block),
            pending: Seq::empty(),
            accounts: self.mined_ledger(miner),
            ..self
        }
    }
}

/// The message for a fee below the minimum.
fn fee_message(fee: u64, minimum_fee: u64) -> (text: String)
    ensures
        text@ == "Transaction fee too low: "@ + decimal_text(fee as nat) + " (minimum: "@
            + decimal_text(minimum_fee as nat) + ")"@,
{
    let mut text = String::from_str("Transaction fee too low: ");
    push_decimal(&mut text, fee as u128);
    text.append(" (minimum: ");
    push_decimal(&mut text, minimum_fee as u128);
    text.append(")");
    text
}

/// Copies a list of blocks.
fn clone_blocks(blocks: &Vec<Block>) -> (copy: Vec<Block>)
    ensures
        block_views(copy@) == block_views(blocks@),
{
    let mut copy: Vec<Block> = Vec::new();
    let mut i: usize = 0;
    while i < blocks.len()
        invariant
            i <= blocks@.len(),
            block_views(copy@) == block_views(blocks@).take(i as int),
        decreases blocks@.len() - i,
    {
        let ghost before = block_views(copy@);
        copy.push(blocks[i].clone());
        assert(block_views(copy@) =~= before.push(blocks@[i as int]@));
        assert(block_views(blocks@).take(i as int).push(blocks@[i as int]@) =~= block_views(
            blocks@,
        ).take(i + 1));
        i = i + 1;
    }
    assert(block_views(blocks@).take(i as int) =~= block_views(blocks@));
    copy
}

/// Applies the transfers among `transactions` to `state`, up to the first that
/// is refused; coinbase transactions are passed over.
fn settle_transactions(state: &mut AccountState, transactions: &Vec<Transaction>) -> (done: Result<
    (),
    AccountError,
>)
    ensures
        ledger_wf(final(state)@),
        match done {
            Ok(()) => settle(old(state)@, transaction_views(transactions@)) == Ok::<
                Ledger,
                AccountFault,
            >(final(state)@),
            Err(e) => settle(old(state)@, transaction_views(transactions@)) == Err::<
                Ledger,
                AccountFault,
            >(e@),
        },
{
    let ghost start = state@;
    let ghost all = transaction_views(transactions@);
    let mut i: usize = 0;
    proof {
        assert(all.skip(0) =~= all);
        use_type_invariant(&*state);
    }
    while i < transactions.len()
        invariant
            i <= transactions@.len(),
            start == old(state)@,
            all == transaction_views(transactions@),
            ledger_wf(state@),
            settle(start, all) == settle(state@, all.skip(i as int)),
        decreases transactions@.len() - i,
    {
        let transaction = &transactions[i];
        proof {
            assert(all.skip(i as int)[0] == transaction@);
            assert(all.skip(i as int).drop_first() =~= all.skip(i + 1));
        }
        if !transaction.is_coinbase() {
            match state.transfer(
                &transaction.sender,
                &transaction.recipient,
                transaction.amount,
                transaction.fee,
                transaction.nonce,
            ) {
                Err(e) => {
                    return Err(e);
                },
                Ok(()) => {},
            }
        }
        i = i + 1;
    }
    proof {
        assert(all.skip(i as int) =~= Seq::<TransactionView>::empty());
    }
    Ok(())
}

/// Replays `transactions` on `state`, up to the first that is refused.
fn replay_transactions(state: &mut AccountState, transactions: &Vec<Transaction>) -> (done: Result<
    (),
    AccountError,
>)
    ensures
        ledger_wf(final(state)@),
        match done {
            Ok(()) => replay(old(state)@, transaction_views(transactions@)) == Ok::<
                Ledger,
                AccountFault,
            >(final(state)@),
            Err(e) => replay(old(state)@, transaction_views(transactions@)) == Err::<
                Ledger,
                AccountFault,
            >(e@),
        },
{
    let ghost start = state@;
    let ghost all = transaction_views(transactions@);
    let mut i: usize = 0;
    proof {
        assert(all.skip(0) =~= all);
    }
    proof {
        use_type_invariant(&*state);
    }
    while i < transactions.len()
        invariant
            i <= transactions@.len(),
            start == old(state)@,
            all == transaction_views(transactions@),
            ledger_wf(state@),
            replay(start, all) == replay(state@, all.skip(i as int)),
        decreases transactions@.len() - i,
    {
        let transaction = &transactions[i];
        proof {
            assert(all.skip(i as int)[0] == transaction@);
            assert(all.skip(i as int).drop_first() =~= all.skip(i + 1));
        }
        let applied = if transaction.is_coinbase() {
            state.process_mining_reward(&transaction.recipient, transaction.amount)
        } else {
            state.transfer(
                &transaction.sender,
                &transaction.recipient,
                transaction.amount,
                transaction.fee,
                transaction.nonce,
            )
        };
        match applied {
            Err(e) => {
                return Err(e);
            },
            Ok(()) => {},
        }
        i = i + 1;
    }
    proof {
        assert(all.skip(i as int) =~= Seq::<TransactionView>::empty());
    }
    Ok(())
}

impl Blockchain {
    /// A new chain with the default settings, whose only block is a genesis
    /// block created now.
    pub fn new() -> (chain: Blockchain)
        ensures
            chain@.well_formed(),
            chain@.linked(),
            chain@.chain.len() == 1,
            chain@.pending.len() == 0,
            chain@.accounts == Ledger::empty(),
            chain@.difficulty == DEFAULT_DIFFICULTY,
            chain@.mining_reward == DEFAULT_MINING_REWARD,
            chain@.minimum_fee == DEFAULT_MINIMUM_FEE,
    {
        Blockchain::with_settings(DEFAULT_DIFFICULTY, DEFAULT_MINING_REWARD, DEFAULT_MINIMUM_FEE)
    }

    /// A new chain with the given settings, whose only block is a genesis block
    /// created now.
    pub fn with_settings(difficulty: u8, mining_reward: u64, minimum_fee: u64) -> (chain:
        Blockchain)
        ensures
            chain@.well_formed(),
            chain@.linked(),
            chain@.chain.len() == 1,
            chain@.pending.len() == 0,
            chain@.accounts == Ledger::empty(),
            chain@.difficulty == difficulty,
            chain@.mining_reward == mining_reward,
            chain@.minimum_fee == minimum_fee,
    {
        Blockchain::with_genesis_at(now(), difficulty, mining_reward, minimum_fee)
    }

    /// A new chain with the given settings, whose only block is the genesis
    /// block created at `timestamp`.
    pub fn with_genesis_at(
        timestamp: String,
        difficulty: u8,
        mining_reward: u64,
        minimum_fee: u64,
    ) -> (chain: Blockchain)
        ensures
            chain@.well_formed(),
            chain@.linked(),
            chain@.chain.len() == 1,
            chain@.chain[0].timestamp == timestamp@,
            chain@.pending.len() == 0,
            chain@.accounts == Ledger::empty(),
            chain@.difficulty == difficulty,
            chain@.mining_reward == mining_reward,
            chain@.minimum_fee == minimum_fee,
    {
        let genesis = Blockchain::create_genesis_block(timestamp);
        let mut chain: Vec<Block> = Vec::new();
        chain.push(genesis);
        let blockchain = Blockchain {
            chain,
            pending_transactions: Vec::new(),
            account_state: AccountState::new(),
            difficulty,
            mining_reward,
            minimum_fee,
        };
        proof {
            assert(blockchain@.chain =~= seq![genesis@]);
            assert(blockchain@.pending =~= Seq::<TransactionView>::empty());
        }
        blockchain
    }

    /// The genesis block created at `timestamp`.
    pub fn create_genesis_block(timestamp: String) -> (genesis: Block)
        ensures
            is_genesis(genesis@),
            genesis@.timestamp == timestamp@,
    {
        let previous_hash = String::from_str("0");
        proof {
            reveal_strlit("0");
            assert(previous_hash@ =~= seq!['0']);
        }
        let genesis = Block::assemble(0, timestamp, Vec::new(), 1, previous_hash);
        assert(genesis@.transactions =~= Seq::<TransactionView>::empty());
        genesis
    }

    /// The latest block.
    pub fn get_last_block(&self) -> (block: Block)
        requires
            self@.well_formed(),
        ensures
            block@ == self@.tip(),
    {
        self.chain[self.chain.len() - 1].clone()
    }

    /// Admits `transaction` to the transactions that wait for the next block
    /// and returns the index of that block.
    ///
    /// A coinbase is admitted as it is. Any other transaction must carry a
    /// signature that checks (`InvalidSignature`, or the error of the check),
    /// pay at least the minimum fee (`InvalidAmount`), and come from a sender
    /// whose balance covers amount and fee (`InsufficientFunds`) and whose
    /// nonce it carries (`InvalidNonce`). Nothing is debited yet. On any
    /// failure nothing has changed.
    pub fn add_transaction(&mut self, transaction: Transaction) -> (index: Result<
        u64,
        BlockchainError,
    >)
        requires
            old(self)@.well_formed(),
        ensures
            final(self)@.well_formed(),
            match index {
                Ok(i) => old(self)@.admission_fault(transaction@) is None && i == old(
                    self,
                )@.tip().index + 1 && final(self)@ == old(self)@.admitted(transaction@),
                Err(e) => old(self)@.admission_fault(transaction@) == Some(e@) && final(self)@
                    == old(self)@,
            },
    {
        if !transaction.is_coinbase() {
            match transaction.verify_signature() {
                Err(e) => {
                    return Err(BlockchainError::TransactionError(e));
                },
                Ok(accepted) => {
                    if !accepted {
                        return Err(
                            BlockchainError::TransactionError(TransactionError::InvalidSignature),
                        );
                    }
                },
            }
            if transaction.fee < self.minimum_fee {
                return Err(
                    BlockchainError::TransactionError(
                        TransactionError::InvalidAmount(
                            fee_message(transaction.fee, self.minimum_fee),
                        ),
                    ),
                );
            }
            let sender_account = self.account_state.get_account(&transaction.sender);
            if !sender_account.has_sufficient_funds(transaction.total_amount()) {
                return Err(
                    BlockchainError::AccountError(
                        AccountError::InsufficientFunds {
                            required: transaction.total_amount(),
                            available: sender_account.balance,
                        },
                    ),
                );
            }
            if !sender_account.is_valid_nonce(transaction.nonce) {
                return Err(
                    BlockchainError::AccountError(
                        AccountError::InvalidNonce {
                            expected: sender_account.nonce,
                            got: transaction.nonce,
                        },
                    ),
                );
            }
        }
        let tip_index = self.chain[self.chain.len() - 1].index;
        if tip_index == u64::MAX {
            return Err(BlockchainError::SystemError(String::from_str("Block index out of range")));
        }
        let ghost before = self@.pending;
        self.pending_transactions.push(transaction);
        proof {
            assert(self@.pending =~= before.push(transaction@));
        }
        Ok(tip_index + 1)
    }

    /// Searches the least proof with which the block of the given content has
    /// a hash of `difficulty` leading zeros, and returns the block sealed with
    /// it, or `None` if no proof does.
    pub fn proof_of_work(
        index: u64,
        timestamp: String,
        transactions: Vec<Transaction>,
        previous_hash: String,
        difficulty: u8,
    ) -> (sealed: Option<Block>)
        ensures
            match sealed {
                Some(block) => {
                    &&& block@.version == 1
                    &&& block@.index == index
                    &&& block@.timestamp == timestamp@
                    &&& block@.transactions == transaction_views(transactions@)
                    &&& block@.previous_hash == previous_hash@
                    &&& block@.sealed()
                    &&& has_leading_zeros(block@.hash, difficulty as nat)
                    &&& forall|p: u64|
                        p < block@.proof ==> !#[trigger] proof_meets(
                            index,
                            timestamp@,
                            transaction_views(transactions@),
                            previous_hash@,
                            p,
                            difficulty,
                        )
                },
                None => forall|p: u64|
                    !#[trigger] proof_meets(
                        index,
                        timestamp@,
                        transaction_views(transactions@),
                        previous_hash@,
                        p,
                        difficulty,
                    ),
            },
    {
        let version = crate::block::default_version();
        let prefix = write_hashed_prefix(version, index, timestamp.as_str(), &transactions);
        let suffix = write_hashed_suffix(previous_hash.as_str());
        let mut proof: u64 = 0;
        loop
            invariant
                version == 1,
                prefix@ == hashed_prefix(1, index, timestamp@, transaction_views(transactions@)),
                suffix@ == hashed_suffix(previous_hash@),
                forall|p: u64|
                    p < proof ==> !#[trigger] proof_meets(
                        index,
                        timestamp@,
                        transaction_views(transactions@),
                        previous_hash@,
                        p,
                        difficulty,
                    ),
            decreases u64::MAX - proof,
        {
            let hash = hash_with_proof(prefix.as_str(), proof, suffix.as_str());
            if starts_with_zeros(hash.as_str(), difficulty) {
                return Some(
                    Block { version, index, timestamp, transactions, proof, previous_hash, hash },
                );
            }
            assert(!proof_meets(
                index,
                timestamp@,
                transaction_views(transactions@),
                previous_hash@,
                proof,
                difficulty,
            ));
            if proof == u64::MAX {
                return None;
            }
            proof = proof + 1;
        }
    }

    /// Mines the next block for `miner_address`, with `reward_id` as the
    /// identifier of the reward transaction and `timestamp` as the time of both
    /// the reward and the block.
    ///
    /// The waiting transfers are applied in order, then the reward is paid,
    /// then the block is sealed and appended, and no transaction waits any
    /// more. If a transfer or the reward is refused, or no proof seals the
    /// block, nothing has changed.
    pub fn mine_block_at(&mut self, miner_address: &str, reward_id: String, timestamp: String) -> (mined:
        Result<Block, BlockchainError>)
        requires
            old(self)@.well_formed(),
        ensures
            final(self)@.well_formed(),
            old(self)@.linked() ==> final(self)@.linked(),
            final(self)@.chain[0] == old(self)@.chain[0],
            mined matches Ok(block) ==> block@.index > 0,
            match mined {
                Ok(block) => {
                    &&& old(self)@.mining_fault(miner_address@) is None
                    &&& old(self)@.seals(miner_address@, reward_id@, timestamp@, block@)
                    &&& final(self)@ == old(self)@.after_mining(miner_address@, block@)
                },
                Err(e) => {
                    &&& final(self)@ == old(self)@
                    &&& match old(self)@.mining_fault(miner_address@) {
                        Some(fault) => e@ == fault,
                        None => e@ == ChainFault::SystemError && old(self)@.unminable(
                            miner_address@,
                            reward_id@,
                            timestamp@,
                        ),
                    }
                },
            },
    {
        let miner = Address(String::from_str(miner_address));
        let reward_transaction = Transaction::assemble_coinbase(
            reward_id,
            timestamp.clone(),
            miner.clone(),
            self.mining_reward,
        );
        let mut staged = self.account_state.clone();
        let ghost waiting = self@.pending;
        match settle_transactions(&mut staged, &self.pending_transactions) {
            Err(e) => {
                return Err(BlockchainError::AccountError(e));
            },
            Ok(()) => {},
        }
        match staged.process_mining_reward(&miner, self.mining_reward) {
            Err(e) => {
                return Err(BlockchainError::AccountError(e));
            },
            Ok(()) => {},
        }
        let tip = &self.chain[self.chain.len() - 1];
        if tip.index == u64::MAX {
            return Err(BlockchainError::SystemError(String::from_str("Block index out of range")));
        }
        let mut transactions = clone_transactions(&self.pending_transactions);
        transactions.push(reward_transaction);
        proof {
            assert(transaction_views(transactions@) =~= waiting.push(reward_transaction@));
        }
        match Blockchain::proof_of_work(
            tip.index + 1,
            timestamp,
            transactions,
            tip.hash.clone(),
            self.difficulty,
        ) {
            None => Err(
                BlockchainError::SystemError(String::from_str("No proof seals the block")),
            ),
            Some(block) => {
                let sealed = block.clone();
                let ghost before = self@;
                self.chain.push(block);
                self.pending_transactions = Vec::new();
                self.account_state = staged;
                proof {
                    assert(self@.chain =~= before.chain.push(block@));
                    assert(self@.pending =~= Seq::<TransactionView>::empty());
                    if before.linked() {
                        assert(before.chain.len() == 1 ==> before.tip().index == 0);
                        assert(before.tip().index == before.chain.len() - 1);
                    }
                }
                Ok(sealed)
            },
        }
    }

    /// Mines the next block for `miner_address`, now, with a fresh identifier
    /// for the reward transaction.
    ///
    /// What is mined is what `mine_block_at` mines with the identifier and the
    /// time that the block shows. On failure nothing has changed; it fails
    /// only where a waiting transfer or the reward is refused, where no index
    /// is left, or where, for the identifier and the time that it took, no
    /// proof seals the block.
    pub fn mine_block(&mut self, miner_address: &str) -> (mined: Result<Block, BlockchainError>)
        requires
            old(self)@.well_formed(),
        ensures
            final(self)@.well_formed(),
            old(self)@.linked() ==> final(self)@.linked(),
            final(self)@.chain[0] == old(self)@.chain[0],
            mined matches Ok(block) ==> block@.index > 0,
            match mined {
                Ok(block) => {
                    &&& old(self)@.mining_fault(miner_address@) is None
                    &&& old(self)@.seals(
                        miner_address@,
                        block@.transactions.last().id,
                        block@.timestamp,
                        block@,
                    )
                    &&& final(self)@ == old(self)@.after_mining(miner_address@, block@)
                },
                Err(e) => {
                    &&& final(self)@ == old(self)@
                    &&& match old(self)@.mining_fault(miner_address@) {
                        Some(fault) => e@ == fault,
                        None => e@ == ChainFault::SystemError && exists|
                            id: Seq<char>,
                            timestamp: Seq<char>,
                        | #[trigger]
                            old(self)@.unminable(miner_address@, id, timestamp),
                    }
                },
            },
    {
        self.mine_block_at(miner_address, new_id(), now())
    }

    /// Rebuilds the accounts by replaying every transaction of the chain, block
    /// by block, on top of the accounts as they are: a coinbase pays its amount
    /// to its recipient, any other transaction is a transfer.
    ///
    /// If a transaction is refused, its fault is returned and nothing has
    /// changed.
    pub fn rebuild_account_state(&mut self) -> (done: Result<(), BlockchainError>)
        requires
            old(self)@.well_formed(),
        ensures
            final(self)@.well_formed(),
            match done {
                Ok(()) => replay_chain(old(self)@.accounts, old(self)@.chain) == Ok::<
                    Ledger,
                    AccountFault,
                >(final(self)@.accounts) && final(self)@ == (ChainView {
                    accounts: final(self)@.accounts,
                    ..old(self)@
                }),
                Err(e) => final(self)@ == old(self)@ && e@ is AccountError && replay_chain(
                    old(self)@.accounts,
                    old(self)@.chain,
                ) == Err::<Ledger, AccountFault>(e@->AccountError_0),
            },
    {
        let mut staged = self.account_state.clone();
        let ghost start = self@;
        let ghost blocks = self@.chain;
        let mut i: usize = 0;
        proof {
            assert(blocks.skip(0) =~= blocks);
        }
        proof {
            use_type_invariant(&staged);
        }
        while i < self.chain.len()
            invariant
                i <= self.chain@.len(),
                self@ == start,
                start.well_formed(),
                blocks == block_views(self.chain@),
                ledger_wf(staged@),
                replay_chain(start.accounts, blocks) == replay_chain(staged@, blocks.skip(i as int)),
            decreases self.chain@.len() - i,
        {
            proof {
                assert(blocks.skip(i as int)[0] == self.chain@[i as int]@);
                assert(blocks.skip(i as int).drop_first() =~= blocks.skip(i + 1));
            }
            match replay_transactions(&mut staged, &self.chain[i].transactions) {
                Err(e) => {
                    return Err(BlockchainError::AccountError(e));
                },
                Ok(()) => {},
            }
            i = i + 1;
        }
        proof {
            assert(blocks.skip(i as int) =~= Seq::<BlockView>::empty());
        }
        self.account_state = staged;
        Ok(())
    }

    /// The chain that the store holds, with the default settings and no waiting
    /// transaction.
    ///
    /// `blocks` is what was read of the blocks, in ascending order of index,
    /// and `accounts` what was read of the accounts. An error in `blocks` is
    /// returned as it is, and no block at all is `NotFound`. Where no account
    /// was read, because reading failed or because the accounts tree holds no
    /// record, the accounts are rebuilt by replaying the chain from an empty
    /// ledger; a transaction that is refused then ends the recovery with its
    /// fault.
    pub fn load_from_storage(
        blocks: Result<Vec<Block>, StorageError>,
        accounts: Result<Vec<Account>, StorageError>,
    ) -> (loaded: Result<Blockchain, BlockchainError>)
        ensures
            match loaded {
                Ok(chain) => {
                    &&& blocks matches Ok(list) && list@.len() > 0 && chain@.chain == block_views(
                        list@,
                    )
                    &&& recovered_ledger(chain@.chain, read_accounts(accounts)) == Ok::<
                        Ledger,
                        AccountFault,
                    >(chain@.accounts)
                    &&& chain@.pending.len() == 0
                    &&& chain@.difficulty == DEFAULT_DIFFICULTY
                    &&& chain@.mining_reward == DEFAULT_MINING_REWARD
                    &&& chain@.minimum_fee == DEFAULT_MINIMUM_FEE
                    &&& chain@.well_formed()
                },
                Err(e) => match blocks {
                    Err(cause) => e@ == ChainFault::StorageError(cause@),
                    Ok(list) => if list@.len() == 0 {
                        e@ == ChainFault::StorageError(StorageFault::NotFound)
                    } else {
                        e@ is AccountError && recovered_ledger(
                            block_views(list@),
                            read_accounts(accounts),
                        ) == Err::<Ledger, AccountFault>(e@->AccountError_0)
                    },
                },
            },
    {
        let chain = match blocks {
            Err(cause) => {
                return Err(BlockchainError::StorageError(cause));
            },
            Ok(list) => list,
        };
        if chain.len() == 0 {
            return Err(
                BlockchainError::StorageError(
                    StorageError::NotFound(String::from_str("No blocks found in storage")),
                ),
            );
        }
        let mut blockchain = Blockchain {
            chain,
            pending_transactions: Vec::new(),
            account_state: AccountState::new(),
            difficulty: DEFAULT_DIFFICULTY,
            mining_reward: DEFAULT_MINING_REWARD,
            minimum_fee: DEFAULT_MINIMUM_FEE,
        };
        proof {
            assert(blockchain@.pending =~= Seq::<TransactionView>::empty());
        }
        let listed = match accounts {
            Ok(list) => list,
            Err(_) => Vec::new(),
        };
        if listed.len() == 0 {
            return match blockchain.rebuild_account_state() {
                Ok(()) => Ok(blockchain),
                Err(e) => Err(e),
            };
        }
        let ghost all = listed@;
        let ghost start = blockchain@;
        proof {
            assert(all.skip(0) =~= all);
        }
        for account in it: listed
            invariant
                it.seq() == all,
                blockchain@ == (ChainView { accounts: blockchain@.accounts, ..start }),
                start.well_formed(),
                blockchain@.well_formed(),
                recorded(Ledger::empty(), all) == recorded(
                    blockchain@.accounts,
                    all.skip(it.index() as int),
                ),
        {
            proof {
                assert(all.skip(it.index() as int)[0] == account);
                assert(all.skip(it.index() as int).drop_first() =~= all.skip(it.index() + 1));
            }
            blockchain.update_account(account);
        }
        proof {
            assert(all.skip(all.len() as int) =~= Seq::<Account>::empty());
        }
        Ok(blockchain)
    }

    /// Starts the ledger over a store, from what was read of its blocks and of
    /// its accounts: the chain is recovered as `load_from_storage` recovers it,
    /// and where the store holds no block, a new chain is created, whose
    /// genesis block the caller writes to the store.
    pub fn with_storage(
        blocks: Result<Vec<Block>, StorageError>,
        accounts: Result<Vec<Account>, StorageError>,
    ) -> (started: Result<Startup, BlockchainError>)
        ensures
            match started {
                Ok(Startup::Recovered(chain)) => {
                    &&& blocks matches Ok(list) && list@.len() > 0 && chain@.chain == block_views(
                        list@,
                    )
                    &&& recovered_ledger(chain@.chain, read_accounts(accounts)) == Ok::<
                        Ledger,
                        AccountFault,
                    >(chain@.accounts)
                    &&& chain@.pending.len() == 0
                    &&& chain@.difficulty == DEFAULT_DIFFICULTY
                    &&& chain@.mining_reward == DEFAULT_MINING_REWARD
                    &&& chain@.minimum_fee == DEFAULT_MINIMUM_FEE
                    &&& chain@.well_formed()
                },
                Ok(Startup::Created(chain)) => {
                    &&& match blocks {
                        Ok(list) => list@.len() == 0,
                        Err(cause) => cause@ == StorageFault::NotFound,
                    }
                    &&& chain@.chain.len() == 1
                    &&& chain@.linked()
                    &&& chain@.pending.len() == 0
                    &&& chain@.accounts == Ledger::empty()
                    &&& chain@.difficulty == DEFAULT_DIFFICULTY
                    &&& chain@.mining_reward == DEFAULT_MINING_REWARD
                    &&& chain@.minimum_fee == DEFAULT_MINIMUM_FEE
                    &&& chain@.well_formed()
                },
                Err(e) => match blocks {
                    Err(cause) => cause@ != StorageFault::NotFound && e@ == ChainFault::StorageError(
                        cause@,
                    ),
                    Ok(list) => list@.len() > 0 && e@ is AccountError && recovered_ledger(
                        block_views(list@),
                        read_accounts(accounts),
                    ) == Err::<Ledger, AccountFault>(e@->AccountError_0),
                },
            },
    {
        match Blockchain::load_from_storage(blocks, accounts) {
            Ok(chain) => Ok(Startup::Recovered(chain)),
            Err(BlockchainError::StorageError(StorageError::NotFound(_))) => Ok(
                Startup::Created(Blockchain::new()),
            ),
            Err(e) => Err(e),
        }
    }

    /// A copy of the whole chain, from the genesis block to the tip.
    pub fn get_chain(&self) -> (chain: Vec<Block>)
        ensures
            block_views(chain@) == self@.chain,
    {
        clone_blocks(&self.chain)
    }

    /// A copy of the transactions that wait for the next block, in the order
    /// in which they were admitted.
    pub fn get_pending_transactions(&self) -> (pending: Vec<Transaction>)
        ensures
            transaction_views(pending@) == self@.pending,
    {
        clone_transactions(&self.pending_transactions)
    }

    /// The accounts, for reading.
    pub fn get_account_state(&self) -> (accounts: &AccountState)
        ensures
            accounts@ == self@.accounts,
    {
        &self.account_state
    }

    /// Records `account` under its address, in place of what was there.
    pub fn update_account(&mut self, account: Account)
        ensures
            final(self)@ == (ChainView {
                accounts: old(self)@.accounts.insert(account@.address, account@),
                ..old(self)@
            }),
            old(self)@.well_formed() ==> final(self)@.well_formed(),
    {
        self.account_state.update_account(account);
    }

    /// Whether every block but the first carries the hash of its content and
    /// names the hash of the block before it.
    pub fn is_valid(&self) -> (valid: bool)
        ensures
            valid == self@.valid(),
    {
        let mut i: usize = 1;
        while i < self.chain.len()
            invariant
                1 <= i,
                forall|k: int|
                    1 <= k < i && k < self.chain@.len() ==> (#[trigger] self@.chain[k]).sealed()
                        && self@.chain[k].previous_hash == self@.chain[k - 1].hash,
            decreases self.chain@.len() - i,
        {
            let current = &self.chain[i];
            let previous = &self.chain[i - 1];
            assert(self@.chain[i as int] == current@);
            assert(self@.chain[i - 1] == previous@);
            let hash = current.calculate_hash();
            if !(current.hash == hash) {
                return false;
            }
            if !(current.previous_hash == previous.hash) {
                return false;
            }
            i = i + 1;
        }
        true
    }
}

} // verus!
