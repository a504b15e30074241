use blockchain::account::Account;
use blockchain::block::Block;
use blockchain::crypto::Address;
use blockchain::storage::{
    account_key, block_key, encode_block_height, get_account, get_all_accounts, get_all_blocks,
    get_block, get_block_height, get_latest_block_hash, get_transaction, save_account, save_block,
    save_transaction, sort_by_index, transaction_key, StorageError, ACCOUNTS_TREE,
    BLOCKS_TREE, BLOCK_HEIGHT_KEY, LATEST_BLOCK_HASH_KEY, METADATA_TREE, TRANSACTIONS_TREE,
};
use blockchain::transaction::Transaction;

fn block(index: u64, tag: &str) -> Block {
    Block::assemble(index, tag.to_string(), Vec::new(), 0, "p".to_string())
}

fn tags(blocks: &[Block]) -> Vec<(u64, String)> {
    blocks.iter().map(|b| (b.index, b.timestamp.clone())).collect()
}

#[test]
fn trees_and_metadata_keys() {
    assert_eq!(BLOCKS_TREE, "blocks");
    assert_eq!(TRANSACTIONS_TREE, "transactions");
    assert_eq!(ACCOUNTS_TREE, "accounts");
    assert_eq!(METADATA_TREE, "metadata");
    assert_eq!(LATEST_BLOCK_HASH_KEY, "latest_block_hash");
    assert_eq!(BLOCK_HEIGHT_KEY, "block_height");
}

#[test]
fn record_keys() {
    let b = block(1, "a");
    assert_eq!(block_key(&b), b.hash.as_bytes());
    let t = Transaction::assemble_coinbase(
        "tx-1".to_string(),
        "t".to_string(),
        Address("m".to_string()),
        1,
    );
    assert_eq!(transaction_key(&t), b"tx-1");
    assert_eq!(account_key(&Address("addr".to_string())), b"addr");
}

#[test]
fn block_height_is_eight_bytes_least_significant_first() {
    assert_eq!(encode_block_height(0), vec![0u8; 8]);
    assert_eq!(encode_block_height(1), vec![1, 0, 0, 0, 0, 0, 0, 0]);
    assert_eq!(encode_block_height(258), vec![2, 1, 0, 0, 0, 0, 0, 0]);
    assert_eq!(encode_block_height(u64::MAX), vec![255u8; 8]);
}

#[test]
fn block_height_read_back() {
    assert_eq!(get_block_height(None).unwrap(), 0);
    assert_eq!(get_block_height(Some(vec![2, 1, 0, 0, 0, 0, 0, 0])).unwrap(), 258);
    assert_eq!(get_block_height(Some(vec![2, 1, 0, 0, 0, 0, 0, 0, 9, 9])).unwrap(), 258);
    for height in [0u64, 1, 77, u64::MAX] {
        assert_eq!(get_block_height(Some(encode_block_height(height))).unwrap(), height);
    }
    assert!(matches!(
        get_block_height(Some(vec![1, 2, 3])),
        Err(StorageError::DeserializationError(_))
    ));
    assert!(matches!(
        get_block_height(Some(Vec::new())),
        Err(StorageError::DeserializationError(_))
    ));
}

#[test]
fn latest_block_hash_read_back() {
    assert!(matches!(get_latest_block_hash(None), Err(StorageError::NotFound(_))));
    assert_eq!(get_latest_block_hash(Some(b"00ab".to_vec())).unwrap(), "00ab");
    let b = block(1, "a");
    assert_eq!(get_latest_block_hash(Some(block_key(&b))).unwrap(), b.hash);
    // What is not valid UTF-8 is replaced, not refused.
    assert!(get_latest_block_hash(Some(vec![0xff, 0x61])).is_ok());
}

#[test]
fn saving_a_block_writes_the_block_and_the_metadata() {
    let b = block(258, "a");
    let writes = save_block(&b, vec![1, 2, 3]);
    assert_eq!(writes.len(), 3);
    assert_eq!(writes[0].tree, "blocks");
    assert_eq!(writes[0].key, b.hash.as_bytes());
    assert_eq!(writes[0].value, vec![1, 2, 3]);
    assert_eq!(writes[1].tree, "metadata");
    assert_eq!(writes[1].key, b"latest_block_hash");
    assert_eq!(writes[1].value, b.hash.as_bytes());
    assert_eq!(writes[2].tree, "metadata");
    assert_eq!(writes[2].key, b"block_height");
    assert_eq!(writes[2].value, vec![2, 1, 0, 0, 0, 0, 0, 0]);
}

#[test]
fn saving_a_transaction_or_an_account_writes_one_record() {
    let t = Transaction::assemble_coinbase(
        "tx-1".to_string(),
        "t".to_string(),
        Address("m".to_string()),
        1,
    );
    let write = save_transaction(&t, vec![9]);
    assert_eq!(write.tree, "transactions");
    assert_eq!(write.key, b"tx-1");
    assert_eq!(write.value, vec![9]);

    let account = Account::new(Address("addr".to_string()));
    let write = save_account(&account, vec![8, 7]);
    assert_eq!(write.tree, "accounts");
    assert_eq!(write.key, b"addr");
    assert_eq!(write.value, vec![8, 7]);
}

#[test]
fn single_records_read_back() {
    assert!(matches!(get_block(None), Err(StorageError::NotFound(_))));
    assert!(matches!(get_block(Some(None)), Err(StorageError::DeserializationError(_))));
    let b = block(4, "x");
    let hash = b.hash.clone();
    assert_eq!(get_block(Some(Some(b))).unwrap().hash, hash);

    assert!(matches!(get_transaction(None), Err(StorageError::NotFound(_))));
    assert!(matches!(get_transaction(Some(None)), Err(StorageError::DeserializationError(_))));
    let t = Transaction::assemble_coinbase(
        "tx-1".to_string(),
        "t".to_string(),
        Address("m".to_string()),
        1,
    );
    assert_eq!(get_transaction(Some(Some(t))).unwrap().id, "tx-1");

    let address = Address("addr".to_string());
    let fresh = get_account(None, &address).unwrap();
    assert_eq!(fresh.address, address);
    assert_eq!(fresh.balance, 0);
    assert_eq!(fresh.nonce, 0);
    assert!(matches!(
        get_account(Some(None), &address),
        Err(StorageError::DeserializationError(_))
    ));
    let stored = Account { version: 1, address: address.clone(), balance: 5, nonce: 2 };
    let found = get_account(Some(Some(stored)), &address).unwrap();
    assert_eq!(found.balance, 5);
    assert_eq!(found.nonce, 2);
}

#[test]
fn blocks_are_sorted_by_index() {
    let sorted =
        sort_by_index(vec![block(2, "c"), block(0, "a"), block(3, "d"), block(1, "b")]);
    assert_eq!(
        tags(&sorted),
        vec![
            (0, "a".to_string()),
            (1, "b".to_string()),
            (2, "c".to_string()),
            (3, "d".to_string())
        ]
    );
    assert!(sort_by_index(Vec::new()).is_empty());
    let already = sort_by_index(vec![block(0, "a"), block(1, "b")]);
    assert_eq!(tags(&already), vec![(0, "a".to_string()), (1, "b".to_string())]);
}

#[test]
fn blocks_of_equal_index_keep_their_order() {
    let sorted = sort_by_index(vec![
        block(1, "first"),
        block(0, "zero"),
        block(1, "second"),
        block(1, "third"),
    ]);
    assert_eq!(
        tags(&sorted),
        vec![
            (0, "zero".to_string()),
            (1, "first".to_string()),
            (1, "second".to_string()),
            (1, "third".to_string())
        ]
    );
}

#[test]
fn damaged_blocks_are_passed_over() {
    let blocks =
        get_all_blocks(vec![Some(block(2, "c")), None, Some(block(0, "a")), None]).unwrap();
    assert_eq!(tags(&blocks), vec![(0, "a".to_string()), (2, "c".to_string())]);
}

#[test]
fn an_empty_blocks_tree_gives_no_blocks() {
    assert!(get_all_blocks(Vec::new()).unwrap().is_empty());
}

#[test]
fn only_damaged_blocks_is_an_error() {
    assert!(matches!(
        get_all_blocks(vec![None]),
        Err(StorageError::DeserializationError(_))
    ));
    assert!(matches!(
        get_all_blocks(vec![None, None, None]),
        Err(StorageError::DeserializationError(_))
    ));
}

#[test]
fn accounts_are_read_best_effort() {
    let a = Account { version: 1, address: Address("a".to_string()), balance: 1, nonce: 0 };
    let b = Account { version: 1, address: Address("b".to_string()), balance: 2, nonce: 5 };
    let accounts = get_all_accounts(vec![None, Some(b), Some(a), None]).unwrap();
    let listed: Vec<(String, u64, u64)> =
        accounts.into_iter().map(|x| (x.address.0, x.balance, x.nonce)).collect();
    assert_eq!(listed, vec![("b".to_string(), 2, 5), ("a".to_string(), 1, 0)]);
    assert!(get_all_accounts(Vec::new()).unwrap().is_empty());
    assert!(matches!(
        get_all_accounts(vec![None, None]),
        Err(StorageError::DeserializationError(_))
    ));
}

#[test]
fn storage_error_messages() {
    assert_eq!(StorageError::DatabaseError("x".to_string()).to_string(), "Database error: x");
    assert_eq!(
        StorageError::SerializationError("x".to_string()).to_string(),
        "Serialization error: x"
    );
    assert_eq!(
        StorageError::DeserializationError("x".to_string()).to_string(),
        "Deserialization error: x"
    );
    assert_eq!(StorageError::NotFound("x".to_string()).to_string(), "Item not found: x");
}
