//! Blocks and their hashes.
//!
//! The hash of a block is the SHA-256 digest, in hexadecimal, of a JSON object
//! with the members version, index, timestamp, transactions, proof and
//! previous_hash, in this order.

use crate::digest::{hash_text, text_digest};
use crate::stamp::now;
use crate::text::{decimal_text, json_string_text, push_decimal, push_json_string};
use crate::transaction::{clone_transactions, transaction_views, Transaction, TransactionView};
use vstd::prelude::*;
use vstd::string::StringExecFns;

verus! {

/// Schema version written into every new block.
pub fn default_version() -> (v: u32)
    ensures
        v == 1,
{
    1
}

/// A block of the chain.
#[derive(Debug)]
pub struct Block {
    pub version: u32,
    pub index: u64,
    /// The time of creation, as ISO-8601 text in UTC.
    pub timestamp: String,
    pub transactions: Vec<Transaction>,
    pub proof: u64,
    pub previous_hash: String,
    pub hash: String,
}

/// A block as a mathematical value.
pub struct BlockView {
    pub version: u32,
    pub index: u64,
    pub timestamp: Seq<char>,
    pub transactions: Seq<TransactionView>,
    pub proof: u64,
    pub previous_hash: Seq<char>,
    pub hash: Seq<char>,
}

impl View for Block {
    type V = BlockView;

    open spec fn view(&self) -> BlockView {
        BlockView {
            version: self.version,
            index: self.index,
            timestamp: self.timestamp@,
            transactions: transaction_views(self.transactions@),
            proof: self.proof,
            previous_hash: self.previous_hash@,
            hash: self.hash@,
        }
    }
}

impl Clone for Block {
    fn clone(&self) -> (copy: Self)
        ensures
            copy@ == self@,
    {
        Block {
            version: self.version,
            index: self.index,
            timestamp: self.timestamp.clone(),
            transactions: clone_transactions(&self.transactions),
            proof: self.proof,
            previous_hash: self.previous_hash.clone(),
            hash: self.hash.clone(),
        }
    }
}

/// The views of a sequence of blocks, in order.
pub open spec fn block_views(blocks: Seq<Block>) -> Seq<BlockView> {
    blocks.map_values(|b: Block| b@)
}

/// The JSON objects of a list of transactions, separated by commas.
pub open spec fn records_text(transactions: Seq<TransactionView>) -> Seq<char>
    decreases transactions.len(),
{
    if transactions.len() == 0 {
        Seq::empty()
    } else if transactions.len() == 1 {
        transactions[0].record_text()
    } else {
        records_text(transactions.drop_last()) + ","@ + transactions.last().record_text()
    }
}

/// The text that is hashed, up to the value of the proof: it depends on the
/// version, the index, the timestamp and the transactions.
pub open spec fn hashed_prefix(
    version: u32,
    index: u64,
    timestamp: Seq<char>,
    transactions: Seq<TransactionView>,
) -> Seq<char> {
    "{\"version\":"@ + decimal_text(version as nat) + ",\"index\":"@ + decimal_text(index as nat)
        + ",\"timestamp\":"@ + json_string_text(timestamp) + ",\"transactions\":["@ + records_text(
        transactions,
    ) + "],\"proof\":"@
}

/// The text that is hashed, after the value of the proof.
pub open spec fn hashed_suffix(previous_hash: Seq<char>) -> Seq<char> {
    ",\"previous_hash\":"@ + json_string_text(previous_hash) + "}"@
}

impl BlockView {
    /// The JSON object that is hashed: every member but the hash itself.
    pub open spec fn hashed_text(self) -> Seq<char> {
        hashed_prefix(self.version, self.index, self.timestamp, self.transactions) + decimal_text(
            self.proof as nat,
        ) + hashed_suffix(self.previous_hash)
    }

    /// The hash that the block should carry.
    pub open spec fn expected_hash(self) -> Seq<char> {
        text_digest(self.hashed_text())
    }

    /// Whether the block carries the hash of its own content.
    pub open spec fn sealed(self) -> bool {
        self.hash == self.expected_hash()
    }
}

/// Writes the JSON objects of `transactions`, separated by commas.
fn write_records(transactions: &Vec<Transaction>) -> (text: String)
    ensures
        text@ == records_text(transaction_views(transactions@)),
{
    let ghost views = transaction_views(transactions@);
    let mut text = String::new();
    let mut i: usize = 0;
    while i < transactions.len()
        invariant
            i <= transactions@.len(),
            views == transaction_views(transactions@),
            text@ == records_text(views.take(i as int)),
        decreases transactions@.len() - i,
    {
        let record = transactions[i].record_text();
        proof {
            let next = views.take(i + 1);
            assert(next.drop_last() =~= views.take(i as int));
            assert(next.last() == transactions@[i as int]@);
            if i == 0 {
                assert(text@ + record@ =~= record@);
            }
        }
        if i > 0 {
            text.append(",");
        }
        text.append(record.as_str());
        i = i + 1;
    }
    assert(views.take(i as int) =~= views);
    text
}

/// Writes the hashed text up to the value of the proof.
pub fn write_hashed_prefix(
    version: u32,
    index: u64,
    timestamp: &str,
    transactions: &Vec<Transaction>,
) -> (text: String)
    ensures
        text@ == hashed_prefix(version, index, timestamp@, transaction_views(transactions@)),
{
    let mut text = String::from_str("{\"version\":");
    push_decimal(&mut text, version as u128);
    text.append(",\"index\":");
    push_decimal(&mut text, index as u128);
    text.append(",\"timestamp\":");
    push_json_string(&mut text, timestamp);
    text.append(",\"transactions\":[");
    let records = write_records(transactions);
    text.append(records.as_str());
    text.append("],\"proof\":");
    text
}

/// Writes the hashed text after the value of the proof.
pub fn write_hashed_suffix(previous_hash: &str) -> (text: String)
    ensures
        text@ == hashed_suffix(previous_hash@),
{
    let mut text = String::from_str(",\"previous_hash\":");
    push_json_string(&mut text, previous_hash);
    text.append("}");
    text
}

/// The hash of the text made of `prefix`, the decimal numeral of `proof`, and
/// `suffix`.
pub fn hash_with_proof(prefix: &str, proof: u64, suffix: &str) -> (hash: String)
    ensures
        hash@ == text_digest(prefix@ + decimal_text(proof as nat) + suffix@),
        hash@.len() == 64,
{
    let mut text = String::from_str(prefix);
    push_decimal(&mut text, proof as u128);
    text.append(suffix);
    hash_text(text.as_str())
}

impl Block {
    /// The block with the given content, created at `timestamp`, carrying the
    /// hash of that content.
    pub fn assemble(
        index: u64,
        timestamp: String,
        transactions: Vec<Transaction>,
        proof: u64,
        previous_hash: String,
    ) -> (block: Block)
        ensures
            block@.version == 1,
            block@.index == index,
            block@.timestamp == timestamp@,
            block@.transactions == transaction_views(transactions@),
            block@.proof == proof,
            block@.previous_hash == previous_hash@,
            block@.sealed(),
            block@.hash.len() == 64,
    {
        let mut block = Block {
            version: default_version(),
            index,
            timestamp,
            transactions,
            proof,
            previous_hash,
            hash: String::new(),
        };
        let hash = block.calculate_hash();
        block.hash = hash;
        block
    }

    /// The block with the given content, created now.
    pub fn new(index: u64, transactions: Vec<Transaction>, proof: u64, previous_hash: String) -> (block:
        Block)
        ensures
            block@.version == 1,
            block@.index == index,
            block@.transactions == transaction_views(transactions@),
            block@.proof == proof,
            block@.previous_hash == previous_hash@,
            block@.sealed(),
            block@.hash.len() == 64,
    {
        Block::assemble(index, now(), transactions, proof, previous_hash)
    }

    /// Computes the hash of the block's content: 64 hexadecimal characters. The
    /// `hash` member takes no part in it.
    pub fn calculate_hash(&self) -> (hash: String)
        ensures
            hash@ == self@.expected_hash(),
            hash@.len() == 64,
    {
        let prefix = write_hashed_prefix(
            self.version,
            self.index,
            self.timestamp.as_str(),
            &self.transactions,
        );
        let suffix = write_hashed_suffix(self.previous_hash.as_str());
        hash_with_proof(prefix.as_str(), self.proof, suffix.as_str())
    }
}

} // verus!
