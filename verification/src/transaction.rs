//! Transfers of value: how they are written down for signing, signed and
//! checked.

use crate::crypto::{
    base58_bytes, base58_text, ed25519_key_valid, ed25519_signature, ed25519_verifies,
    verify_signature, Address, CryptoError, CryptoFault, DigitalSignature, Wallet, KEY_LENGTH,
    SIGNATURE_LENGTH,
};
use crate::stamp::{new_id, now};
use crate::text::{decimal_text, json_string_text, push_decimal, push_json_string};
use vstd::prelude::*;
use vstd::string::{StrSliceExecFns, StringExecFns};
use vstd::utf8::encode_utf8;

verus! {

/// Schema version written into every new transaction.
pub fn default_version() -> (v: u32)
    ensures
        v == 1,
{
    1
}

/// The address that stands for the system: the sender of coinbase
/// transactions.
pub open spec fn system_address() -> Seq<char> {
    seq!['0']
}

/// What can go wrong with a transaction.
#[derive(Debug)]
pub enum TransactionError {
    InvalidSignature,
    InsufficientFunds { required: u128, available: u64 },
    InvalidSenderAddress(String),
    InvalidRecipientAddress(String),
    InvalidAmount(String),
    AlreadySigned,
    NotSigned,
    CryptoError(CryptoError),
    SystemError(String),
}

/// A `TransactionError` without its message text.
pub enum TransactionFault {
    InvalidSignature,
    InsufficientFunds { required: int, available: int },
    InvalidSenderAddress,
    InvalidRecipientAddress,
    InvalidAmount,
    AlreadySigned,
    NotSigned,
    CryptoError(CryptoFault),
    SystemError,
}

impl View for TransactionError {
    type V = TransactionFault;

    open spec fn view(&self) -> TransactionFault {
        match *self {
            TransactionError::InvalidSignature => TransactionFault::InvalidSignature,
            TransactionError::InsufficientFunds { required, available } => {
                TransactionFault::InsufficientFunds {
                    required: required as int,
                    available: available as int,
                }
            },
            TransactionError::InvalidSenderAddress(_) => TransactionFault::InvalidSenderAddress,
            TransactionError::InvalidRecipientAddress(_) => {
                TransactionFault::InvalidRecipientAddress
            },
            TransactionError::InvalidAmount(_) => TransactionFault::InvalidAmount,
            TransactionError::AlreadySigned => TransactionFault::AlreadySigned,
            TransactionError::NotSigned => TransactionFault::NotSigned,
            TransactionError::CryptoError(e) => TransactionFault::CryptoError(e@),
            TransactionError::SystemError(_) => TransactionFault::SystemError,
        }
    }
}

impl TransactionError {
    /// The message a user is shown for this error; amounts are in base units.
    pub open spec fn message(self) -> Seq<char> {
        match self {
            TransactionError::InvalidSignature => "Invalid signature"@,
            TransactionError::InsufficientFunds { required, available } => {
                "Insufficient funds: required "@ + decimal_text(required as nat) + ", available "@
                    + decimal_text(available as nat)
            },
            TransactionError::InvalidSenderAddress(m) => "Invalid sender address: "@ + m@,
            TransactionError::InvalidRecipientAddress(m) => "Invalid recipient address: "@ + m@,
            TransactionError::InvalidAmount(m) => "Invalid amount: "@ + m@,
            TransactionError::AlreadySigned => "Transaction already signed"@,
            TransactionError::NotSigned => "Transaction not signed"@,
            TransactionError::CryptoError(e) => "Crypto error: "@ + e.message(),
            TransactionError::SystemError(m) => "System error: "@ + m@,
        }
    }

    /// Writes the message a user is shown for this error.
    pub fn to_string(&self) -> (text: String)
        ensures
            text@ == self.message(),
    {
        match self {
            TransactionError::InvalidSignature => String::from_str("Invalid signature"),
            TransactionError::InsufficientFunds { required, available } => {
                let mut text = String::from_str("Insufficient funds: required ");
                push_decimal(&mut text, *required);
                text.append(", available ");
                push_decimal(&mut text, *available as u128);
                text
            },
            TransactionError::InvalidSenderAddress(m) => String::from_str(
                "Invalid sender address: ",
            ).concat(m.as_str()),
            TransactionError::InvalidRecipientAddress(m) => String::from_str(
                "Invalid recipient address: ",
            ).concat(m.as_str()),
            TransactionError::InvalidAmount(m) => String::from_str("Invalid amount: ").concat(
                m.as_str(),
            ),
            TransactionError::AlreadySigned => String::from_str("Transaction already signed"),
            TransactionError::NotSigned => String::from_str("Transaction not signed"),
            TransactionError::CryptoError(e) => String::from_str("Crypto error: ").concat(
                e.to_string().as_str(),
            ),
            TransactionError::SystemError(m) => String::from_str("System error: ").concat(
                m.as_str(),
            ),
        }
    }
}

/// A transfer of `amount` base units from `sender` to `recipient`, for which
/// the sender pays `fee` on top.
#[derive(Debug)]
pub struct Transaction {
    pub version: u32,
    pub id: String,
    pub sender: Address,
    pub recipient: Address,
    pub amount: u64,
    pub fee: u64,
    pub nonce: u64,
    pub signature: Option<DigitalSignature>,
    /// The time of creation, as ISO-8601 text in UTC.
    pub timestamp: String,
}

/// A transaction as a mathematical value.
pub struct TransactionView {
    pub version: u32,
    pub id: Seq<char>,
    pub sender: Seq<char>,
    pub recipient: Seq<char>,
    pub amount: u64,
    pub fee: u64,
    pub nonce: u64,
    pub signature: Option<Seq<char>>,
    pub timestamp: Seq<char>,
}

impl View for Transaction {
    type V = TransactionView;

    open spec fn view(&self) -> TransactionView {
        TransactionView {
            version: self.version,
            id: self.id@,
            sender: self.sender@,
            recipient: self.recipient@,
            amount: self.amount,
            fee: self.fee,
            nonce: self.nonce,
            signature: match self.signature {
                Some(s) => Some(s@),
                None => None,
            },
            timestamp: self.timestamp@,
        }
    }
}

impl Clone for Transaction {
    fn clone(&self) -> (copy: Self)
        ensures
            copy == *self,
    {
        Transaction {
            version: self.version,
            id: self.id.clone(),
            sender: self.sender.clone(),
            recipient: self.recipient.clone(),
            amount: self.amount,
            fee: self.fee,
            nonce: self.nonce,
            signature: match &self.signature {
                Some(s) => Some(s.clone()),
                None => None,
            },
            timestamp: self.timestamp.clone(),
        }
    }
}

/// The views of a sequence of transactions, in order.
pub open spec fn transaction_views(transactions: Seq<Transaction>) -> Seq<TransactionView> {
    transactions.map_values(|t: Transaction| t@)
}

/// Copies a list of transactions.
pub fn clone_transactions(transactions: &Vec<Transaction>) -> (copy: Vec<Transaction>)
    ensures
        copy@ == transactions@,
{
    let mut copy: Vec<Transaction> = Vec::new();
    let mut i: usize = 0;
    while i < transactions.len()
        invariant
            i <= transactions@.len(),
            copy@ == transactions@.take(i as int),
        decreases transactions@.len() - i,
    {
        copy.push(transactions[i].clone());
        assert(transactions@.take(i as int).push(transactions@[i as int]) =~= transactions@.take(
            i + 1,
        ));
        i = i + 1;
    }
    assert(transactions@.take(i as int) =~= transactions@);
    copy
}

impl TransactionView {
    /// A transaction is a coinbase if the system sends it, free of fee and with
    /// nonce zero.
    pub open spec fn is_coinbase(self) -> bool {
        self.sender == system_address() && self.fee == 0 && self.nonce == 0
    }

    /// What the sender pays: the amount and the fee.
    pub open spec fn total_amount(self) -> int {
        self.amount + self.fee
    }

    /// The opening of the JSON object that writes the transaction, up to the
    /// nonce.
    pub open spec fn record_head(self) -> Seq<char> {
        "{\"version\":"@ + decimal_text(self.version as nat) + ",\"id\":"@ + json_string_text(
            self.id,
        ) + ",\"sender\":"@ + json_string_text(self.sender) + ",\"recipient\":"@
            + json_string_text(self.recipient) + ",\"amount\":"@ + decimal_text(self.amount as nat)
            + ",\"fee\":"@ + decimal_text(self.fee as nat) + ",\"nonce\":"@ + decimal_text(
            self.nonce as nat,
        )
    }

    /// The signature member of that object; nothing for an unsigned
    /// transaction.
    pub open spec fn record_signature(self) -> Seq<char> {
        match self.signature {
            Some(s) => ",\"signature\":"@ + json_string_text(s),
            None => Seq::empty(),
        }
    }

    /// The end of that object: the timestamp.
    pub open spec fn record_tail(self) -> Seq<char> {
        ",\"timestamp\":"@ + json_string_text(self.timestamp) + "}"@
    }

    /// The JSON object that is signed: version, id, sender, recipient, amount,
    /// fee, nonce and timestamp, in this order, and never the signature.
    pub open spec fn signing_text(self) -> Seq<char> {
        self.record_head() + self.record_tail()
    }

    /// The bytes that are signed.
    pub open spec fn signing_bytes(self) -> Seq<u8> {
        encode_utf8(self.signing_text())
    }

    /// The JSON object that goes into a block's hash: the signed members and
    /// the signature, where there is one.
    pub open spec fn record_text(self) -> Seq<char> {
        self.record_head() + self.record_signature() + self.record_tail()
    }

    /// What checking the signature comes to: an error kind for a transaction
    /// without signature or with a malformed sender or signature, else whether
    /// Ed25519 accepts the signature over the signing bytes under the sender's
    /// key.
    pub open spec fn signature_check(self) -> Result<bool, TransactionFault> {
        match self.signature {
            None => Err(TransactionFault::NotSigned),
            Some(signature) => match base58_bytes(self.sender) {
                None => Err(TransactionFault::CryptoError(CryptoFault::DecodingError)),
                Some(key) => if !(key.len() == KEY_LENGTH && ed25519_key_valid(key)) {
                    Err(TransactionFault::CryptoError(CryptoFault::InvalidPublicKey))
                } else {
                    match base58_bytes(signature) {
                        None => Err(TransactionFault::CryptoError(CryptoFault::DecodingError)),
                        Some(bytes) => if bytes.len() != SIGNATURE_LENGTH {
                            Err(TransactionFault::CryptoError(CryptoFault::InvalidSignature))
                        } else {
                            Ok(ed25519_verifies(key, self.signing_bytes(), bytes))
                        },
                    }
                },
            },
        }
    }
}

/// A verdict on a signature, with the error reduced to its kind.
pub open spec fn verdict_view(verdict: Result<bool, TransactionError>) -> Result<
    bool,
    TransactionFault,
> {
    match verdict {
        Ok(accepted) => Ok(accepted),
        Err(e) => Err(e@),
    }
}

impl Transaction {
    /// An unsigned transaction with the given identifier and time of creation.
    pub fn assemble(
        id: String,
        timestamp: String,
        sender: Address,
        recipient: Address,
        amount: u64,
        fee: u64,
        nonce: u64,
    ) -> (transaction: Transaction)
        ensures
            transaction@ == (TransactionView {
                version: 1,
                id: id@,
                sender: sender@,
                recipient: recipient@,
                amount,
                fee,
                nonce,
                signature: None,
                timestamp: timestamp@,
            }),
    {
        Transaction {
            version: default_version(),
            id,
            sender,
            recipient,
            amount,
            fee,
            nonce,
            signature: None,
            timestamp,
        }
    }

    /// An unsigned transaction with a fresh identifier, created now.
    pub fn new(sender: Address, recipient: Address, amount: u64, fee: u64, nonce: u64) -> (transaction:
        Transaction)
        ensures
            transaction@ == (TransactionView {
                version: 1,
                id: transaction@.id,
                sender: sender@,
                recipient: recipient@,
                amount,
                fee,
                nonce,
                signature: None,
                timestamp: transaction@.timestamp,
            }),
    {
        Transaction::assemble(new_id(), now(), sender, recipient, amount, fee, nonce)
    }

    /// The coinbase transaction that pays `amount` to `recipient`, with the
    /// given identifier and time of creation.
    pub fn assemble_coinbase(id: String, timestamp: String, recipient: Address, amount: u64) -> (transaction:
        Transaction)
        ensures
            transaction@ == (TransactionView {
                version: 1,
                id: id@,
                sender: system_address(),
                recipient: recipient@,
                amount,
                fee: 0,
                nonce: 0,
                signature: None,
                timestamp: timestamp@,
            }),
            transaction@.is_coinbase(),
    {
        let system = String::from_str("0");
        proof {
            reveal_strlit("0");
            assert(system@ =~= system_address());
        }
        Transaction::assemble(id, timestamp, Address(system), recipient, amount, 0, 0)
    }

    /// A coinbase transaction with a fresh identifier, created now.
    pub fn new_coinbase(recipient: Address, amount: u64) -> (transaction: Transaction)
        ensures
            transaction@ == (TransactionView {
                version: 1,
                id: transaction@.id,
                sender: system_address(),
                recipient: recipient@,
                amount,
                fee: 0,
                nonce: 0,
                signature: None,
                timestamp: transaction@.timestamp,
            }),
            transaction@.is_coinbase(),
    {
        Transaction::assemble_coinbase(new_id(), now(), recipient, amount)
    }

    /// Writes the members up to the nonce.
    fn head_text(&self) -> (text: String)
        ensures
            text@ == self@.record_head(),
    {
        let mut text = String::from_str("{\"version\":");
        push_decimal(&mut text, self.version as u128);
        text.append(",\"id\":");
        push_json_string(&mut text, self.id.as_str());
        text.append(",\"sender\":");
        push_json_string(&mut text, self.sender.0.as_str());
        text.append(",\"recipient\":");
        push_json_string(&mut text, self.recipient.0.as_str());
        text.append(",\"amount\":");
        push_decimal(&mut text, self.amount as u128);
        text.append(",\"fee\":");
        push_decimal(&mut text, self.fee as u128);
        text.append(",\"nonce\":");
        push_decimal(&mut text, self.nonce as u128);
        text
    }

    /// Writes the timestamp member and closes the object.
    fn tail_text(&self) -> (text: String)
        ensures
            text@ == self@.record_tail(),
    {
        let mut text = String::from_str(",\"timestamp\":");
        push_json_string(&mut text, self.timestamp.as_str());
        text.append("}");
        text
    }

    /// The JSON object over which the signature is made.
    pub fn signing_text(&self) -> (text: String)
        ensures
            text@ == self@.signing_text(),
    {
        let mut text = self.head_text();
        let tail = self.tail_text();
        text.append(tail.as_str());
        text
    }

    /// The JSON object that enters the hash of a block.
    pub fn record_text(&self) -> (text: String)
        ensures
            text@ == self@.record_text(),
    {
        let mut text = self.head_text();
        match &self.signature {
            Some(signature) => {
                let mut member = String::from_str(",\"signature\":");
                push_json_string(&mut member, signature.0.as_str());
                text.append(member.as_str());
            },
            None => {
                assert(text@ + Seq::<char>::empty() =~= text@);
            },
        }
        let tail = self.tail_text();
        text.append(tail.as_str());
        text
    }

    /// The bytes over which the signature is made.
    pub fn to_bytes(&self) -> (bytes: Vec<u8>)
        ensures
            bytes@ == self@.signing_bytes(),
    {
        self.signing_text().as_str().as_bytes_vec()
    }

    /// Signs the transaction with `wallet`.
    ///
    /// Fails with `AlreadySigned` if there is a signature already, and with
    /// `InvalidSenderAddress` if the wallet is not the sender's; the
    /// transaction is then unchanged. Afterwards the signature checks.
    pub fn sign(&mut self, wallet: &Wallet) -> (done: Result<(), TransactionError>)
        ensures
            match done {
                Ok(()) => old(self)@.signature is None && wallet.address_text() == old(self)@.sender
                    && final(self)@ == (TransactionView {
                    signature: Some(
                        base58_text(ed25519_signature(wallet.secret(), old(self)@.signing_bytes())),
                    ),
                    ..old(self)@
                }) && final(self)@.signature_check() == Ok::<bool, TransactionFault>(true),
                Err(e) => final(self)@ == old(self)@ && e@ == (if old(self)@.signature is Some {
                    TransactionFault::AlreadySigned
                } else {
                    TransactionFault::InvalidSenderAddress
                }) && (old(self)@.signature is Some || wallet.address_text() != old(self)@.sender),
            },
    {
        if self.signature.is_some() {
            return Err(TransactionError::AlreadySigned);
        }
        if wallet.address().0 != self.sender.0 {
            return Err(
                TransactionError::InvalidSenderAddress(
                    String::from_str("Wallet address does not match sender address"),
                ),
            );
        }
        let message = self.to_bytes();
        match wallet.sign(message.as_slice()) {
            Err(e) => Err(TransactionError::CryptoError(e)),
            Ok(signature) => {
                self.signature = Some(signature);
                Ok(())
            },
        }
    }

    /// Checks the signature against the sender's address.
    ///
    /// Fails with `NotSigned` if there is none, and with a `CryptoError` if the
    /// sender's address or the signature is malformed. A signature that does
    /// not match is `Ok(false)`.
    pub fn verify_signature(&self) -> (verdict: Result<bool, TransactionError>)
        ensures
            verdict_view(verdict) == self@.signature_check(),
    {
        let signature = match &self.signature {
            Some(signature) => signature,
            None => {
                return Err(TransactionError::NotSigned);
            },
        };
        let public_key = match self.sender.to_public_key() {
            Ok(key) => key,
            Err(e) => {
                return Err(TransactionError::CryptoError(e));
            },
        };
        let message = self.to_bytes();
        match verify_signature(message.as_slice(), signature, &public_key) {
            Ok(accepted) => Ok(accepted),
            Err(e) => Err(TransactionError::CryptoError(e)),
        }
    }

    /// Whether this is a coinbase transaction.
    pub fn is_coinbase(&self) -> (coinbase: bool)
        ensures
            coinbase == self@.is_coinbase(),
    {
        let sender = self.sender.0.as_str();
        proof {
            if sender@.len() == 1 {
                assert(sender@ =~= seq![sender@[0]]);
            }
        }
        sender.unicode_len() == 1 && sender.get_char(0) == '0' && self.fee == 0 && self.nonce == 0
    }

    /// What the sender pays: the amount and the fee.
    pub fn total_amount(&self) -> (total: u128)
        ensures
            total == self@.total_amount(),
    {
        self.amount as u128 + self.fee as u128
    }
}

} // verus!
