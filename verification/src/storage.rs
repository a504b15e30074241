//! What the ledger decides about its persistent store: the names of the four
//! trees and of the metadata keys, the key of each record, and what is made of
//! the records read back, of which some may be damaged.
//!
//! Reading and writing the store itself is the caller's part.

use crate::account::Account;
use crate::block::{block_views, Block, BlockView};
use crate::crypto::Address;
use crate::transaction::Transaction;
use vstd::bytes::{spec_u64_from_le_bytes, spec_u64_to_le_bytes};
use vstd::prelude::*;
use vstd::string::{StrSliceExecFns, StringExecFns};
use vstd::utf8::{decode_utf8, encode_utf8, valid_utf8};

verus! {

/// What can go wrong with the store.
#[derive(Debug)]
pub enum StorageError {
    DatabaseError(String),
    SerializationError(String),
    DeserializationError(String),
    NotFound(String),
}

/// A `StorageError` without its message text.
pub enum StorageFault {
    DatabaseError,
    SerializationError,
    DeserializationError,
    NotFound,
}

impl View for StorageError {
    type V = StorageFault;

    open spec fn view(&self) -> StorageFault {
        match *self {
            StorageError::DatabaseError(_) => StorageFault::DatabaseError,
            StorageError::SerializationError(_) => StorageFault::SerializationError,
            StorageError::DeserializationError(_) => StorageFault::DeserializationError,
            StorageError::NotFound(_) => StorageFault::NotFound,
        }
    }
}

impl StorageError {
    /// The message a user is shown for this error.
    pub open spec fn message(self) -> Seq<char> {
        match self {
            StorageError::DatabaseError(m) => "Database error: "@ + m@,
            StorageError::SerializationError(m) => "Serialization error: "@ + m@,
            StorageError::DeserializationError(m) => "Deserialization error: "@ + m@,
            StorageError::NotFound(m) => "Item not found: "@ + m@,
        }
    }

    /// Writes the message a user is shown for this error.
    pub fn to_string(&self) -> (text: String)
        ensures
            text@ == self.message(),
    {
        match self {
            StorageError::DatabaseError(m) => String::from_str("Database error: ").concat(
                m.as_str(),
            ),
            StorageError::SerializationError(m) => String::from_str(
                "Serialization error: ",
            ).concat(m.as_str()),
            StorageError::DeserializationError(m) => String::from_str(
                "Deserialization error: ",
            ).concat(m.as_str()),
            StorageError::NotFound(m) => String::from_str("Item not found: ").concat(m.as_str()),
        }
    }
}

/// The tree of blocks, keyed by block hash.
pub const BLOCKS_TREE: &'static str = "blocks";

/// The tree of transactions, keyed by transaction id.
pub const TRANSACTIONS_TREE: &'static str = "transactions";

/// The tree of accounts, keyed by address.
pub const ACCOUNTS_TREE: &'static str = "accounts";

/// The tree of metadata.
pub const METADATA_TREE: &'static str = "metadata";

/// The metadata key under which the hash of the latest block is kept.
pub const LATEST_BLOCK_HASH_KEY: &'static str = "latest_block_hash";

/// The metadata key under which the index of the latest block is kept.
pub const BLOCK_HEIGHT_KEY: &'static str = "block_height";

/// Trusted: `bincode::serialize` on a `u64`, which writes the number as eight
/// bytes, least significant first, and cannot fail.
#[verifier::external_body]
fn height_to_bytes(height: u64) -> (bytes: Vec<u8>)
    ensures
        bytes@ == spec_u64_to_le_bytes(height),
{
    bincode::serialize(&height).unwrap_or_default()
}

/// Trusted: `bincode::deserialize` to a `u64`, which reads the first eight
/// bytes, least significant first, ignores what follows and fails on less.
#[verifier::external_body]
fn height_from_bytes(bytes: &[u8]) -> (height: Option<u64>)
    ensures
        match height {
            Some(h) => bytes@.len() >= 8 && h == spec_u64_from_le_bytes(bytes@.take(8)),
            None => bytes@.len() < 8,
        },
{
    bincode::deserialize::<u64>(bytes).ok()
}

/// Trusted: `String::from_utf8_lossy`, which gives back the text that valid
/// UTF-8 writes, and replaces what is not valid.
#[verifier::external_body]
fn lossy_text(bytes: &[u8]) -> (text: String)
    ensures
        valid_utf8(bytes@) ==> text@ == decode_utf8(bytes@),
{
    String::from_utf8_lossy(bytes).into_owned()
}

/// The key of a block in the blocks tree, which is also the value kept under
/// `LATEST_BLOCK_HASH_KEY` once the block is saved: the bytes of its hash.
pub fn block_key(block: &Block) -> (key: Vec<u8>)
    ensures
        key@ == encode_utf8(block@.hash),
        valid_utf8(key@),
        decode_utf8(key@) == block@.hash,
{
    proof {
        vstd::utf8::encode_utf8_valid_utf8(block@.hash);
        vstd::utf8::encode_utf8_decode_utf8(block@.hash);
    }
    block.hash.as_str().as_bytes_vec()
}

/// The hash of the latest block, from what was found under
/// `LATEST_BLOCK_HASH_KEY`: the text that the bytes write, and `NotFound`
/// where nothing was found.
pub fn get_latest_block_hash(found: Option<Vec<u8>>) -> (hash: Result<String, StorageError>)
    ensures
        match found {
            None => hash matches Err(e) && e@ == StorageFault::NotFound,
            Some(bytes) => hash matches Ok(text) && (valid_utf8(bytes@) ==> text@ == decode_utf8(
                bytes@,
            )),
        },
{
    match found {
        None => Err(StorageError::NotFound(String::from_str("Latest block hash not found"))),
        Some(bytes) => Ok(lossy_text(bytes.as_slice())),
    }
}

/// The key of a transaction in the transactions tree: the bytes of its id.
pub fn transaction_key(transaction: &Transaction) -> (key: Vec<u8>)
    ensures
        key@ == encode_utf8(transaction@.id),
{
    transaction.id.as_str().as_bytes_vec()
}

/// The key of an account in the accounts tree: the bytes of its address.
pub fn account_key(address: &Address) -> (key: Vec<u8>)
    ensures
        key@ == encode_utf8(address@),
{
    address.0.as_str().as_bytes_vec()
}

/// The value kept under `BLOCK_HEIGHT_KEY` for a chain whose latest block has
/// the index `height`: eight bytes, least significant first.
pub fn encode_block_height(height: u64) -> (bytes: Vec<u8>)
    ensures
        bytes@ == spec_u64_to_le_bytes(height),
        bytes@.len() == 8,
        spec_u64_from_le_bytes(bytes@) == height,
{
    proof {
        vstd::bytes::lemma_auto_spec_u64_to_from_le_bytes();
    }
    height_to_bytes(height)
}

/// One write to the store: `value` goes under `key` in the tree `tree`.
#[derive(Debug)]
pub struct StoreWrite {
    pub tree: &'static str,
    pub key: Vec<u8>,
    pub value: Vec<u8>,
}

/// What saving `block` writes, given its serialised form: the block under its
/// hash in the blocks tree, then its hash under `LATEST_BLOCK_HASH_KEY` and its
/// index under `BLOCK_HEIGHT_KEY` in the metadata tree.
pub fn save_block(block: &Block, serialized: Vec<u8>) -> (writes: Vec<StoreWrite>)
    ensures
        writes@.len() == 3,
        writes@[0].tree@ == BLOCKS_TREE@,
        writes@[0].key@ == encode_utf8(block@.hash),
        writes@[0].value@ == serialized@,
        writes@[1].tree@ == METADATA_TREE@,
        writes@[1].key@ == encode_utf8(LATEST_BLOCK_HASH_KEY@),
        writes@[1].value@ == encode_utf8(block@.hash),
        writes@[2].tree@ == METADATA_TREE@,
        writes@[2].key@ == encode_utf8(BLOCK_HEIGHT_KEY@),
        writes@[2].value@ == spec_u64_to_le_bytes(block@.index),
{
    let mut writes: Vec<StoreWrite> = Vec::new();
    writes.push(StoreWrite { tree: BLOCKS_TREE, key: block_key(block), value: serialized });
    writes.push(
        StoreWrite {
            tree: METADATA_TREE,
            key: LATEST_BLOCK_HASH_KEY.as_bytes_vec(),
            value: block_key(block),
        },
    );
    writes.push(
        StoreWrite {
            tree: METADATA_TREE,
            key: BLOCK_HEIGHT_KEY.as_bytes_vec(),
            value: encode_block_height(block.index),
        },
    );
    writes
}

/// What saving `transaction` writes, given its serialised form: the
/// transaction under its id in the transactions tree.
pub fn save_transaction(transaction: &Transaction, serialized: Vec<u8>) -> (write: StoreWrite)
    ensures
        write.tree@ == TRANSACTIONS_TREE@,
        write.key@ == encode_utf8(transaction@.id),
        write.value@ == serialized@,
{
    StoreWrite { tree: TRANSACTIONS_TREE, key: transaction_key(transaction), value: serialized }
}

/// What saving `account` writes, given its serialised form: the account under
/// its address in the accounts tree.
pub fn save_account(account: &Account, serialized: Vec<u8>) -> (write: StoreWrite)
    ensures
        write.tree@ == ACCOUNTS_TREE@,
        write.key@ == encode_utf8(account@.address),
        write.value@ == serialized@,
{
    StoreWrite { tree: ACCOUNTS_TREE, key: account_key(&account.address), value: serialized }
}

/// The block of a given hash, from what was found under that hash: `None`
/// where nothing was found, and `Some(None)` where the record could not be
/// read.
pub fn get_block(found: Option<Option<Block>>) -> (block: Result<Block, StorageError>)
    ensures
        match found {
            None => block matches Err(e) && e@ == StorageFault::NotFound,
            Some(None) => block matches Err(e) && e@ == StorageFault::DeserializationError,
            Some(Some(stored)) => block matches Ok(b) && b == stored,
        },
{
    match found {
        None => Err(StorageError::NotFound(String::from_str("Block not found"))),
        Some(None) => Err(
            StorageError::DeserializationError(String::from_str("Block could not be read")),
        ),
        Some(Some(stored)) => Ok(stored),
    }
}

/// The transaction of a given id, from what was found under that id: `None`
/// where nothing was found, and `Some(None)` where the record could not be
/// read.
pub fn get_transaction(found: Option<Option<Transaction>>) -> (transaction: Result<
    Transaction,
    StorageError,
>)
    ensures
        match found {
            None => transaction matches Err(e) && e@ == StorageFault::NotFound,
            Some(None) => transaction matches Err(e) && e@ == StorageFault::DeserializationError,
            Some(Some(stored)) => transaction matches Ok(t) && t == stored,
        },
{
    match found {
        None => Err(StorageError::NotFound(String::from_str("Transaction not found"))),
        Some(None) => Err(
            StorageError::DeserializationError(String::from_str("Transaction could not be read")),
        ),
        Some(Some(stored)) => Ok(stored),
    }
}

/// The height of the stored chain, from what was found under
/// `BLOCK_HEIGHT_KEY`: zero where nothing was found, and a
/// `DeserializationError` where fewer than eight bytes were.
pub fn get_block_height(found: Option<Vec<u8>>) -> (height: Result<u64, StorageError>)
    ensures
        match found {
            None => height matches Ok(h) && h == 0,
            Some(bytes) => if bytes@.len() >= 8 {
                height matches Ok(h) && h == spec_u64_from_le_bytes(bytes@.take(8))
            } else {
                height matches Err(e) && e@ == StorageFault::DeserializationError
            },
        },
{
    match found {
        None => Ok(0),
        Some(bytes) => match height_from_bytes(bytes.as_slice()) {
            Some(height) => Ok(height),
            None => Err(
                StorageError::DeserializationError(String::from_str("Block height is truncated")),
            ),
        },
    }
}

/// The account of `address`, from what was found under its key: the stored
/// account, a fresh one with no funds where nothing was found (`None`), and a
/// `DeserializationError` where the record could not be read (`Some(None)`).
pub fn get_account(found: Option<Option<Account>>, address: &Address) -> (account: Result<
    Account,
    StorageError,
>)
    ensures
        match found {
            None => account matches Ok(a) && a@ == crate::account::fresh_account(address@),
            Some(None) => account matches Err(e) && e@ == StorageFault::DeserializationError,
            Some(Some(stored)) => account matches Ok(a) && a == stored,
        },
{
    match found {
        None => Ok(Account::new(address.clone())),
        Some(None) => Err(
            StorageError::DeserializationError(String::from_str("Account could not be read")),
        ),
        Some(Some(stored)) => Ok(stored),
    }
}

/// The records that could be read, in the order in which they came.
pub open spec fn readable<T>(records: Seq<Option<T>>) -> Seq<T>
    decreases records.len(),
{
    if records.len() == 0 {
        Seq::empty()
    } else {
        match records.last() {
            Some(record) => readable(records.drop_last()).push(record),
            None => readable(records.drop_last()),
        }
    }
}

/// Whether reading is given up: some record was damaged and none could be
/// read.
pub open spec fn nothing_readable<T>(records: Seq<Option<T>>) -> bool {
    records.len() > 0 && readable(records).len() == 0
}

/// Keeps the records that could be read, in their order.
fn keep_readable<T>(records: Vec<Option<T>>) -> (kept: Vec<T>)
    ensures
        kept@ == readable(records@),
{
    let ghost all = records@;
    let mut kept: Vec<T> = Vec::new();
    for record in it: records
        invariant
            it.seq() == all,
            kept@ == readable(all.take(it.index() as int)),
    {
        proof {
            let next = all.take(it.index() + 1);
            assert(next.drop_last() =~= all.take(it.index() as int));
            assert(next.last() == record);
        }
        match record {
            Some(value) => {
                kept.push(value);
            },
            None => {},
        }
    }
    proof {
        assert(all.take(all.len() as int) =~= all);
    }
    kept
}

/// Where `block` goes into a list ordered by index: behind every block whose
/// index is not greater than its own.
pub open spec fn insert_by_index(ordered: Seq<BlockView>, block: BlockView) -> Seq<BlockView>
    decreases ordered.len(),
{
    if ordered.len() == 0 {
        seq![block]
    } else if ordered.last().index <= block.index {
        ordered.push(block)
    } else {
        insert_by_index(ordered.drop_last(), block).push(ordered.last())
    }
}

/// The blocks in ascending order of index; blocks of equal index keep the order
/// in which they came.
pub open spec fn sorted_by_index(blocks: Seq<BlockView>) -> Seq<BlockView>
    decreases blocks.len(),
{
    if blocks.len() == 0 {
        Seq::empty()
    } else {
        insert_by_index(sorted_by_index(blocks.drop_last()), blocks.last())
    }
}

/// Whether the indices never fall along the list.
pub open spec fn ordered_by_index(blocks: Seq<BlockView>) -> bool {
    forall|i: int, j: int| 0 <= i <= j < blocks.len() ==> blocks[i].index <= blocks[j].index
}

proof fn lemma_insert_at(ordered: Seq<BlockView>, block: BlockView, position: int)
    requires
        0 <= position <= ordered.len(),
        forall|j: int| position <= j < ordered.len() ==> ordered[j].index > block.index,
        position > 0 ==> ordered[position - 1].index <= block.index,
    ensures
        insert_by_index(ordered, block) == ordered.insert(position, block),
    decreases ordered.len(),
{
    if ordered.len() == 0 {
        assert(seq![block] =~= ordered.insert(position, block));
    } else if position == ordered.len() {
        assert(ordered.push(block) =~= ordered.insert(position, block));
    } else {
        lemma_insert_at(ordered.drop_last(), block, position);
        assert(ordered.drop_last().insert(position, block).push(ordered.last())
            =~= ordered.insert(position, block));
    }
}

/// Inserting a block keeps the list ordered and adds that block to it.
pub proof fn lemma_insert_by_index(ordered: Seq<BlockView>, block: BlockView)
    requires
        ordered_by_index(ordered),
    ensures
        ordered_by_index(insert_by_index(ordered, block)),
        insert_by_index(ordered, block).to_multiset() == ordered.to_multiset().insert(block),
        insert_by_index(ordered, block).len() == ordered.len() + 1,
    decreases ordered.len(),
{
    broadcast use vstd::seq_lib::group_to_multiset_ensures;

    if ordered.len() == 0 {
        assert(seq![block] =~= Seq::<BlockView>::empty().push(block));
        assert(ordered =~= Seq::<BlockView>::empty());
    } else if ordered.last().index <= block.index {
    } else {
        let rest = ordered.drop_last();
        lemma_insert_by_index(rest, block);
        let inner = insert_by_index(rest, block);
        assert(ordered =~= rest.push(ordered.last()));
        assert(inner.push(ordered.last()).to_multiset() =~= ordered.to_multiset().insert(block));
        let out = inner.push(ordered.last());
        assert forall|i: int, j: int| 0 <= i <= j < out.len() implies out[i].index
            <= out[j].index by {
            if j == out.len() - 1 && i < j {
                assert(inner.to_multiset().contains(inner[i]));
                if inner[i] == block {
                } else {
                    assert(rest.to_multiset().contains(inner[i]));
                    let k = choose|k: int| 0 <= k < rest.len() && rest[k] == inner[i];
                    assert(ordered[k].index <= ordered[ordered.len() - 1].index);
                }
            }
        }
    }
}

/// Sorting by index gives a list in ascending order of index that holds the
/// same blocks, each as often as it came.
pub proof fn lemma_sorted_by_index(blocks: Seq<BlockView>)
    ensures
        ordered_by_index(sorted_by_index(blocks)),
        sorted_by_index(blocks).to_multiset() == blocks.to_multiset(),
        sorted_by_index(blocks).len() == blocks.len(),
    decreases blocks.len(),
{
    broadcast use vstd::seq_lib::group_to_multiset_ensures;

    if blocks.len() == 0 {
        assert(blocks =~= Seq::<BlockView>::empty());
    } else {
        lemma_sorted_by_index(blocks.drop_last());
        lemma_insert_by_index(sorted_by_index(blocks.drop_last()), blocks.last());
        assert(blocks =~= blocks.drop_last().push(blocks.last()));
    }
}

/// A list that is already in ascending order of index is left as it is.
pub proof fn lemma_sorted_is_fixed(blocks: Seq<BlockView>)
    requires
        ordered_by_index(blocks),
    ensures
        sorted_by_index(blocks) == blocks,
    decreases blocks.len(),
{
    if blocks.len() == 0 {
        assert(blocks =~= Seq::<BlockView>::empty());
    } else {
        let rest = blocks.drop_last();
        lemma_sorted_is_fixed(rest);
        if rest.len() > 0 {
            assert(rest.last() == blocks[blocks.len() - 2]);
        }
        assert(rest.push(blocks.last()) =~= blocks);
    }
}

/// Sorts blocks by index; blocks of equal index keep their order.
pub fn sort_by_index(blocks: Vec<Block>) -> (sorted: Vec<Block>)
    ensures
        block_views(sorted@) == sorted_by_index(block_views(blocks@)),
{
    let ghost all = blocks@;
    let mut sorted: Vec<Block> = Vec::new();
    for block in it: blocks
        invariant
            it.seq() == all,
            block_views(sorted@) == sorted_by_index(block_views(all.take(it.index() as int))),
    {
        let ghost before = block_views(sorted@);
        let mut position: usize = sorted.len();
        while position > 0 && sorted[position - 1].index > block.index
            invariant
                position <= sorted@.len(),
                forall|j: int| position <= j < sorted@.len() ==> sorted@[j].index > block.index,
            decreases position,
        {
            position = position - 1;
        }
        proof {
            lemma_insert_at(before, block@, position as int);
            assert(block_views(sorted@.insert(position as int, block)) =~= before.insert(
                position as int,
                block@,
            ));
            let next = block_views(all.take(it.index() + 1));
            assert(next.drop_last() =~= block_views(all.take(it.index() as int)));
            assert(next.last() == block@);
        }
        sorted.insert(position, block);
    }
    proof {
        assert(all.take(all.len() as int) =~= all);
    }
    sorted
}

/// The views of the blocks that could be read.
pub open spec fn readable_blocks(records: Seq<Option<Block>>) -> Seq<BlockView> {
    block_views(readable(records))
}

/// All blocks of the store, from the records of the blocks tree, where `None`
/// stands for a record that could not be read.
///
/// Damaged records are passed over. The blocks that could be read are returned
/// in ascending order of index, unless some record was damaged and none could
/// be read: that is a `DeserializationError`.
pub fn get_all_blocks(records: Vec<Option<Block>>) -> (blocks: Result<Vec<Block>, StorageError>)
    ensures
        match blocks {
            Ok(list) => !nothing_readable(records@) && block_views(list@) == sorted_by_index(
                readable_blocks(records@),
            ),
            Err(e) => nothing_readable(records@) && e@ == StorageFault::DeserializationError,
        },
{
    let total = records.len();
    let kept = keep_readable(records);
    if total > 0 && kept.len() == 0 {
        return Err(
            StorageError::DeserializationError(
                String::from_str("Failed to deserialize any blocks"),
            ),
        );
    }
    Ok(sort_by_index(kept))
}

/// All accounts of the store, from the records of the accounts tree, where
/// `None` stands for a record that could not be read.
///
/// Damaged records are passed over. The accounts that could be read are
/// returned in the order in which they came, unless some record was damaged
/// and none could be read: that is a `DeserializationError`. A tree without
/// records gives an empty list; recovery takes that, like an error, for lost
/// accounts and rebuilds them from the chain.
pub fn get_all_accounts(records: Vec<Option<Account>>) -> (accounts: Result<
    Vec<Account>,
    StorageError,
>)
    ensures
        match accounts {
            Ok(list) => !nothing_readable(records@) && list@ == readable(records@),
            Err(e) => nothing_readable(records@) && e@ == StorageFault::DeserializationError,
        },
{
    let total = records.len();
    let kept = keep_readable(records);
    if total > 0 && kept.len() == 0 {
        return Err(
            StorageError::DeserializationError(
                String::from_str("Failed to deserialize any accounts"),
            ),
        );
    }
    Ok(kept)
}

} // verus!
