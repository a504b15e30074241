use blockchain::crypto::{
    verify_signature, Address, CryptoError, DigitalSignature, PublicKey, Wallet,
};

const SECRET_HEX: &str = "9d61b19deffd5a60ba844af492ec2cc44449c5697b326919703bac031cae7f60";
const PUBLIC_HEX: &str = "d75a980182b10ab7d54bfed3c964073a0ee172f3daa62325af021a68f707511a";
const EMPTY_SIGNATURE_HEX: &str = "e5564300c360ac729086e2cc806e828a84877f1eb8e5d974d873e065224901555fb8821590a33bacc61e39701cf9b46bd25bf5f0595bbe24655141438e7a100b";

fn known_wallet() -> Wallet {
    Wallet::from_secret_key(&hex::decode(SECRET_HEX).unwrap()).unwrap()
}

#[test]
fn test_wallet_creation() {
    let wallet = Wallet::new().unwrap();
    assert!(!wallet.address().0.is_empty());
}

#[test]
fn test_signing_and_verification() {
    let wallet = Wallet::new().unwrap();
    let message = b"Hello, world!";

    // Sign the message
    let signature = wallet.sign(message).unwrap();

    // Verify the signature
    let result = verify_signature(message, &signature, wallet.public_key()).unwrap();
    assert!(result);

    // Verify with wrong message
    let wrong_message = b"Wrong message";
    let result = verify_signature(wrong_message, &signature, wallet.public_key()).unwrap();
    assert!(!result);
}

#[test]
fn test_address_conversion() {
    let wallet = Wallet::new().unwrap();
    let address = wallet.address();

    // Convert address to public key
    let public_key = address.to_public_key().unwrap();

    // Check that it matches the wallet's public key
    assert_eq!(public_key.as_bytes(), wallet.public_key().as_bytes());
}

#[test]
fn wallet_from_known_secret_has_known_public_key() {
    let wallet = known_wallet();
    assert_eq!(hex::encode(wallet.public_key().as_bytes()), PUBLIC_HEX);
    assert_eq!(hex::encode(wallet.export_secret_key()), SECRET_HEX);
    let expected_address = bs58::encode(hex::decode(PUBLIC_HEX).unwrap()).into_string();
    assert_eq!(wallet.address().0, expected_address);
    assert_eq!(wallet.address().to_string(), expected_address);
}

#[test]
fn signing_is_deterministic_and_matches_known_signature() {
    let wallet = known_wallet();
    let first = wallet.sign(b"").unwrap();
    let second = wallet.sign(b"").unwrap();
    assert_eq!(first.0, second.0);
    let bytes = first.to_signature().unwrap();
    assert_eq!(hex::encode(bytes), EMPTY_SIGNATURE_HEX);
}

#[test]
fn two_new_wallets_differ() {
    let a = Wallet::new().unwrap();
    let b = Wallet::new().unwrap();
    assert_ne!(a.address(), b.address());
    assert_ne!(a.export_secret_key(), b.export_secret_key());
}

#[test]
fn secret_key_of_wrong_length_is_rejected() {
    for length in [0usize, 1, 31, 33, 64] {
        let bytes = vec![7u8; length];
        let result = Wallet::from_secret_key(&bytes);
        assert!(matches!(result, Err(CryptoError::InvalidPrivateKey(_))));
    }
    assert!(Wallet::from_secret_key(&[7u8; 32]).is_ok());
}

#[test]
fn cloned_wallet_signs_alike() {
    let wallet = known_wallet();
    let copy = wallet.clone();
    assert_eq!(wallet.address(), copy.address());
    assert_eq!(wallet.sign(b"x").unwrap().0, copy.sign(b"x").unwrap().0);
}

#[test]
fn signature_does_not_verify_under_another_key() {
    let signer = Wallet::new().unwrap();
    let other = Wallet::new().unwrap();
    let signature = signer.sign(b"payload").unwrap();
    assert!(!verify_signature(b"payload", &signature, other.public_key()).unwrap());
}

#[test]
fn base58_text_of_signature_bytes() {
    let zeros = DigitalSignature::from_signature(&[0u8; 64]);
    assert_eq!(zeros.0, "1".repeat(64));
    assert_eq!(zeros.to_signature().unwrap(), [0u8; 64]);

    let mut bytes = [0u8; 64];
    for (i, byte) in bytes.iter_mut().enumerate() {
        *byte = i as u8;
    }
    let text = DigitalSignature::from_signature(&bytes);
    assert_eq!(text.0, bs58::encode(bytes).into_string());
    assert_eq!(text.to_signature().unwrap(), bytes);
}

#[test]
fn malformed_signature_text_is_an_error() {
    let wallet = known_wallet();
    // '0', 'O', 'I' and 'l' are not in the base58 alphabet.
    let not_base58 = DigitalSignature("0OIl".to_string());
    assert!(matches!(not_base58.to_signature(), Err(CryptoError::DecodingError(_))));
    assert!(matches!(
        verify_signature(b"m", &not_base58, wallet.public_key()),
        Err(CryptoError::DecodingError(_))
    ));
    // "he11owor1d" is base58 for eight bytes.
    let short = DigitalSignature("he11owor1d".to_string());
    assert!(matches!(short.to_signature(), Err(CryptoError::InvalidSignature(_))));
    assert!(matches!(
        verify_signature(b"m", &short, wallet.public_key()),
        Err(CryptoError::InvalidSignature(_))
    ));
}

#[test]
fn address_parsing() {
    let address = Address::from_str("he11owor1d").unwrap();
    assert_eq!(address.0, "he11owor1d");
    assert!(matches!(Address::from_str("0OIl"), Err(CryptoError::DecodingError(_))));
    // Eight bytes are no public key.
    assert!(matches!(address.to_public_key(), Err(CryptoError::InvalidPublicKey(_))));
    assert!(matches!(
        Address("not base58 !".to_string()).to_public_key(),
        Err(CryptoError::DecodingError(_))
    ));
    // The system address decodes to a single byte.
    assert!(matches!(
        Address("1".to_string()).to_public_key(),
        Err(CryptoError::InvalidPublicKey(_))
    ));
}

#[test]
fn public_key_from_bytes_checks_length_and_point() {
    let public = hex::decode(PUBLIC_HEX).unwrap();
    let key = PublicKey::from_bytes(&public).unwrap();
    assert_eq!(key.as_bytes().to_vec(), public);
    assert!(PublicKey::from_bytes(&public[..31]).is_none());
    assert!(PublicKey::from_bytes(&[]).is_none());

    // Not every 32 bytes encode a curve point.
    let mut accepted = 0;
    let mut rejected = 0;
    for first in 0u8..=255 {
        let mut bytes = [0u8; 32];
        bytes[0] = first;
        match PublicKey::from_bytes(&bytes) {
            Some(key) => {
                assert_eq!(key.as_bytes(), &bytes);
                accepted += 1;
            }
            None => rejected += 1,
        }
    }
    assert!(accepted > 0);
    assert!(rejected > 0);
}

#[test]
fn address_of_public_key_round_trips() {
    let wallet = known_wallet();
    let address = Address::from_public_key(wallet.public_key());
    assert_eq!(&address, wallet.address());
    let key = address.to_public_key().unwrap();
    assert_eq!(hex::encode(key.as_bytes()), PUBLIC_HEX);
    assert_eq!(key.clone().as_bytes(), key.as_bytes());
}

#[test]
fn crypto_error_messages() {
    assert_eq!(
        CryptoError::InvalidPrivateKey("Invalid private key length".to_string()).to_string(),
        "Invalid private key: Invalid private key length"
    );
    assert_eq!(
        CryptoError::KeypairGenerationError("x".to_string()).to_string(),
        "Failed to generate keypair: x"
    );
    assert_eq!(CryptoError::SigningError("x".to_string()).to_string(), "Failed to sign message: x");
    assert_eq!(
        CryptoError::VerificationError("x".to_string()).to_string(),
        "Failed to verify signature: x"
    );
    assert_eq!(CryptoError::InvalidPublicKey("x".to_string()).to_string(), "Invalid public key: x");
    assert_eq!(CryptoError::InvalidSignature("x".to_string()).to_string(), "Invalid signature: x");
    assert_eq!(CryptoError::EncodingError("x".to_string()).to_string(), "Encoding error: x");
    assert_eq!(CryptoError::DecodingError("x".to_string()).to_string(), "Decoding error: x");
}
