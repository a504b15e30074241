use blockchain::account::UNITS_PER_COIN;
use blockchain::crypto::{Address, CryptoError, DigitalSignature, Wallet};
use blockchain::transaction::{default_version, Transaction, TransactionError};

const COIN: u64 = UNITS_PER_COIN;

#[test]
fn test_new_transaction() {
    let sender_wallet = Wallet::new().unwrap();
    let recipient_wallet = Wallet::new().unwrap();
    let amount = 105 * COIN / 10;
    let fee = COIN / 10;
    let nonce = 1;

    let transaction = Transaction::new(
        sender_wallet.address().clone(),
        recipient_wallet.address().clone(),
        amount,
        fee,
        nonce,
    );

    assert_eq!(transaction.sender, *sender_wallet.address());
    assert_eq!(transaction.recipient, *recipient_wallet.address());
    assert_eq!(transaction.amount, amount);
    assert_eq!(transaction.fee, fee);
    assert_eq!(transaction.nonce, nonce);
    assert!(!transaction.id.is_empty());
    assert!(transaction.signature.is_none());
}

#[test]
fn test_sign_transaction() {
    let sender_wallet = Wallet::new().unwrap();
    let recipient_wallet = Wallet::new().unwrap();
    let amount = 105 * COIN / 10;
    let fee = COIN / 10;
    let nonce = 1;

    let mut transaction = Transaction::new(
        sender_wallet.address().clone(),
        recipient_wallet.address().clone(),
        amount,
        fee,
        nonce,
    );

    // Sign the transaction
    transaction.sign(&sender_wallet).unwrap();

    // Verify that the transaction is signed
    assert!(transaction.signature.is_some());

    // Verify the signature
    assert!(transaction.verify_signature().unwrap());
}

#[test]
fn test_coinbase_transaction() {
    let miner_wallet = Wallet::new().unwrap();
    let reward = 50 * COIN;

    let transaction = Transaction::new_coinbase(miner_wallet.address().clone(), reward);

    assert_eq!(transaction.sender.0, "0");
    assert_eq!(transaction.recipient, *miner_wallet.address());
    assert_eq!(transaction.amount, reward);
    assert_eq!(transaction.fee, 0);
    assert_eq!(transaction.nonce, 0);
    assert!(transaction.is_coinbase());
}

fn sample() -> Transaction {
    Transaction::assemble(
        "id\"1".to_string(),
        "2023-01-01T12:00:00Z".to_string(),
        Address("alice".to_string()),
        Address("bob".to_string()),
        1_000,
        10,
        3,
    )
}

#[test]
fn new_transactions_get_fresh_identifiers_and_a_time() {
    let a = Transaction::new(Address("a".to_string()), Address("b".to_string()), 1, 1, 0);
    let b = Transaction::new(Address("a".to_string()), Address("b".to_string()), 1, 1, 0);
    assert_eq!(a.version, 1);
    assert_eq!(default_version(), 1);
    assert_eq!(a.id.len(), 36);
    assert_ne!(a.id, b.id);
    assert!(a.timestamp.ends_with('Z'));
    assert!(a.timestamp.contains('T'));
    assert!(!a.is_coinbase());
}

#[test]
fn signing_text_is_the_canonical_object() {
    let transaction = sample();
    let expected = "{\"version\":1,\"id\":\"id\\\"1\",\"sender\":\"alice\",\"recipient\":\"bob\",\"amount\":1000,\"fee\":10,\"nonce\":3,\"timestamp\":\"2023-01-01T12:00:00Z\"}";
    assert_eq!(transaction.signing_text(), expected);
    assert_eq!(transaction.to_bytes(), expected.as_bytes());
    // Unsigned, the record is the same object.
    assert_eq!(transaction.record_text(), expected);
}

#[test]
fn the_signature_enters_the_record_but_not_the_signing_text() {
    let mut transaction = sample();
    let before = transaction.signing_text();
    transaction.signature = Some(DigitalSignature("abc".to_string()));
    assert_eq!(transaction.signing_text(), before);
    assert_eq!(
        transaction.record_text(),
        "{\"version\":1,\"id\":\"id\\\"1\",\"sender\":\"alice\",\"recipient\":\"bob\",\"amount\":1000,\"fee\":10,\"nonce\":3,\"signature\":\"abc\",\"timestamp\":\"2023-01-01T12:00:00Z\"}"
    );
}

#[test]
fn coinbase_is_told_by_sender_fee_and_nonce() {
    let coinbase = Transaction::assemble_coinbase(
        "r".to_string(),
        "t".to_string(),
        Address("miner".to_string()),
        7,
    );
    assert!(coinbase.is_coinbase());
    assert_eq!(coinbase.id, "r");
    assert_eq!(coinbase.timestamp, "t");
    assert!(coinbase.signature.is_none());

    let mut with_fee = coinbase.clone();
    with_fee.fee = 1;
    assert!(!with_fee.is_coinbase());
    let mut with_nonce = coinbase.clone();
    with_nonce.nonce = 1;
    assert!(!with_nonce.is_coinbase());
    let mut other_sender = coinbase.clone();
    other_sender.sender = Address("00".to_string());
    assert!(!other_sender.is_coinbase());
    other_sender.sender = Address("1".to_string());
    assert!(!other_sender.is_coinbase());
    other_sender.sender = Address(String::new());
    assert!(!other_sender.is_coinbase());
}

#[test]
fn total_amount_is_amount_plus_fee() {
    assert_eq!(sample().total_amount(), 1_010);
    let mut large = sample();
    large.amount = u64::MAX;
    large.fee = u64::MAX;
    assert_eq!(large.total_amount(), 2 * (u64::MAX as u128));
}

#[test]
fn signing_twice_fails() {
    let wallet = Wallet::new().unwrap();
    let mut transaction =
        Transaction::new(wallet.address().clone(), Address("bob".to_string()), 5, 1, 0);
    transaction.sign(&wallet).unwrap();
    let signature = transaction.signature.clone().unwrap().0;
    assert!(matches!(transaction.sign(&wallet), Err(TransactionError::AlreadySigned)));
    assert_eq!(transaction.signature.unwrap().0, signature);
}

#[test]
fn signing_with_another_wallet_fails() {
    let sender = Wallet::new().unwrap();
    let stranger = Wallet::new().unwrap();
    let mut transaction =
        Transaction::new(sender.address().clone(), Address("bob".to_string()), 5, 1, 0);
    assert!(matches!(
        transaction.sign(&stranger),
        Err(TransactionError::InvalidSenderAddress(_))
    ));
    assert!(transaction.signature.is_none());
}

#[test]
fn the_signature_is_over_the_signing_bytes() {
    let wallet = Wallet::new().unwrap();
    let mut transaction = Transaction::assemble(
        "fixed-id".to_string(),
        "2024-02-03T04:05:06Z".to_string(),
        wallet.address().clone(),
        Address("bob".to_string()),
        5,
        1,
        0,
    );
    let expected = wallet.sign(&transaction.to_bytes()).unwrap();
    transaction.sign(&wallet).unwrap();
    assert_eq!(transaction.signature.as_ref().unwrap().0, expected.0);
    assert!(transaction.verify_signature().unwrap());
}

#[test]
fn a_changed_transaction_no_longer_verifies() {
    let wallet = Wallet::new().unwrap();
    let mut transaction =
        Transaction::new(wallet.address().clone(), Address("bob".to_string()), 5, 1, 0);
    transaction.sign(&wallet).unwrap();
    let mut more = transaction.clone();
    more.amount = 6;
    assert!(!more.verify_signature().unwrap());
    let mut elsewhere = transaction.clone();
    elsewhere.recipient = Address("eve".to_string());
    assert!(!elsewhere.verify_signature().unwrap());
    assert!(transaction.verify_signature().unwrap());
}

#[test]
fn verification_errors() {
    let wallet = Wallet::new().unwrap();
    let unsigned = Transaction::new(wallet.address().clone(), Address("bob".to_string()), 5, 1, 0);
    assert!(matches!(unsigned.verify_signature(), Err(TransactionError::NotSigned)));

    let mut bad_sender = sample();
    bad_sender.sender = Address("not base58 !".to_string());
    bad_sender.signature = Some(DigitalSignature("abc".to_string()));
    assert!(matches!(
        bad_sender.verify_signature(),
        Err(TransactionError::CryptoError(CryptoError::DecodingError(_)))
    ));

    let mut short_sender = sample();
    short_sender.sender = Address("he11owor1d".to_string());
    short_sender.signature = Some(DigitalSignature("abc".to_string()));
    assert!(matches!(
        short_sender.verify_signature(),
        Err(TransactionError::CryptoError(CryptoError::InvalidPublicKey(_)))
    ));

    let mut bad_signature = unsigned.clone();
    bad_signature.signature = Some(DigitalSignature("0OIl".to_string()));
    assert!(matches!(
        bad_signature.verify_signature(),
        Err(TransactionError::CryptoError(CryptoError::DecodingError(_)))
    ));

    let mut short_signature = unsigned.clone();
    short_signature.signature = Some(DigitalSignature("he11owor1d".to_string()));
    assert!(matches!(
        short_signature.verify_signature(),
        Err(TransactionError::CryptoError(CryptoError::InvalidSignature(_)))
    ));
}

#[test]
fn a_signature_by_another_wallet_does_not_verify() {
    let sender = Wallet::new().unwrap();
    let forger = Wallet::new().unwrap();
    let mut transaction =
        Transaction::new(forger.address().clone(), Address("bob".to_string()), 5, 1, 0);
    transaction.sign(&forger).unwrap();
    transaction.sender = sender.address().clone();
    assert!(!transaction.verify_signature().unwrap());
}

#[test]
fn transaction_error_messages() {
    assert_eq!(TransactionError::InvalidSignature.to_string(), "Invalid signature");
    assert_eq!(TransactionError::AlreadySigned.to_string(), "Transaction already signed");
    assert_eq!(TransactionError::NotSigned.to_string(), "Transaction not signed");
    assert_eq!(
        TransactionError::InsufficientFunds { required: 1_010_000_000, available: 500_000_000 }
            .to_string(),
        "Insufficient funds: required 1010000000, available 500000000"
    );
    assert_eq!(
        TransactionError::InvalidSenderAddress("x".to_string()).to_string(),
        "Invalid sender address: x"
    );
    assert_eq!(
        TransactionError::InvalidRecipientAddress("x".to_string()).to_string(),
        "Invalid recipient address: x"
    );
    assert_eq!(TransactionError::InvalidAmount("x".to_string()).to_string(), "Invalid amount: x");
    assert_eq!(TransactionError::SystemError("x".to_string()).to_string(), "System error: x");
    assert_eq!(
        TransactionError::CryptoError(CryptoError::DecodingError("y".to_string())).to_string(),
        "Crypto error: Decoding error: y"
    );
}
