//! Keys, addresses and signatures.
//!
//! The Ed25519 arithmetic and the base58 alphabet are the work of
//! `ed25519_dalek` and `bs58`; this module holds their results as plain bytes
//! and text and decides what is accepted as a key, an address or a signature.

use ed25519_dalek::{Signature, Signer, SigningKey, Verifier, VerifyingKey};
use rand::rngs::OsRng;
use vstd::prelude::*;
use vstd::string::StringExecFns;

verus! {

/// Length in bytes of an Ed25519 secret key and of a public key.
pub const KEY_LENGTH: usize = 32;

/// Length in bytes of an Ed25519 signature.
pub const SIGNATURE_LENGTH: usize = 64;

/// The public key that Ed25519 derives from a 32-byte secret key.
pub uninterp spec fn ed25519_public_key(secret: Seq<u8>) -> Seq<u8>;

/// The signature that Ed25519 computes over `message` with `secret`.
pub uninterp spec fn ed25519_signature(secret: Seq<u8>, message: Seq<u8>) -> Seq<u8>;

/// Whether 32 bytes are the encoding of a curve point, that is, of a public key.
pub uninterp spec fn ed25519_key_valid(public: Seq<u8>) -> bool;

/// Whether `signature` is accepted for `message` under the public key `public`.
pub uninterp spec fn ed25519_verifies(
    public: Seq<u8>,
    message: Seq<u8>,
    signature: Seq<u8>,
) -> bool;

/// The base58 text (Bitcoin alphabet) of a byte string.
pub uninterp spec fn base58_text(bytes: Seq<u8>) -> Seq<char>;

/// The bytes that a base58 text stands for, if it is one.
pub uninterp spec fn base58_bytes(text: Seq<char>) -> Option<Seq<u8>>;

#[verifier::external_type_specification]
#[verifier::external_body]
pub struct ExBase58DecodeError(bs58::decode::Error);

/// Trusted: `SigningKey::generate` over the operating system's random
/// generator. Nothing is claimed of the key but its type.
#[verifier::external_body]
fn random_secret_key() -> (secret: [u8; 32]) {
    SigningKey::generate(&mut OsRng).to_bytes()
}

/// Trusted: `SigningKey::from_bytes` followed by `verifying_key`. The result is
/// the public key of `secret`, and it is the encoding of a curve point.
#[verifier::external_body]
fn derive_public_key(secret: &[u8; 32]) -> (public: [u8; 32])
    ensures
        public@ == ed25519_public_key(secret@),
        ed25519_key_valid(public@),
{
    SigningKey::from_bytes(secret).verifying_key().to_bytes()
}

/// Trusted: `Signer::sign` of `SigningKey`. Signing is deterministic, and the
/// signature verifies under the public key of the same secret key.
#[verifier::external_body]
fn sign_message(secret: &[u8; 32], message: &[u8]) -> (signature: [u8; 64])
    ensures
        signature@ == ed25519_signature(secret@, message@),
        ed25519_verifies(ed25519_public_key(secret@), message@, signature@),
{
    SigningKey::from_bytes(secret).sign(message).to_bytes()
}

/// Trusted: `VerifyingKey::from_bytes`, which accepts exactly the encodings of
/// curve points.
#[verifier::external_body]
fn check_public_key(public: &[u8; 32]) -> (valid: bool)
    ensures
        valid == ed25519_key_valid(public@),
{
    VerifyingKey::from_bytes(public).is_ok()
}

/// Trusted: `Verifier::verify` of `VerifyingKey`, on the key that `public`
/// encodes.
#[verifier::external_body]
fn verify_message(public: &[u8; 32], message: &[u8], signature: &[u8; 64]) -> (accepted: bool)
    requires
        ed25519_key_valid(public@),
    ensures
        accepted == ed25519_verifies(public@, message@, signature@),
{
    match VerifyingKey::from_bytes(public) {
        Ok(key) => key.verify(message, &Signature::from_bytes(signature)).is_ok(),
        Err(_) => false,
    }
}

/// Trusted: `bs58::encode(..).into_string()`. Decoding the text gives the
/// bytes back.
#[verifier::external_body]
fn base58_encode(bytes: &[u8]) -> (text: String)
    ensures
        text@ == base58_text(bytes@),
        base58_bytes(text@) == Some(bytes@),
{
    bs58::encode(bytes).into_string()
}

/// Trusted: `bs58::decode(..).into_vec()`, which fails on a character outside
/// the alphabet.
#[verifier::external_body]
fn base58_decode(text: &str) -> (decoded: Result<Vec<u8>, bs58::decode::Error>)
    ensures
        match decoded {
            Ok(bytes) => base58_bytes(text@) == Some(bytes@),
            Err(_) => base58_bytes(text@) is None,
        },
{
    bs58::decode(text).into_vec()
}

/// Trusted: the `Display` text of a base58 decoding error.
#[verifier::external_body]
fn decode_error_text(error: &bs58::decode::Error) -> (text: String) {
    error.to_string()
}

/// What can go wrong with keys, signatures and their encodings.
#[derive(Debug)]
pub enum CryptoError {
    KeypairGenerationError(String),
    SigningError(String),
    VerificationError(String),
    InvalidPublicKey(String),
    InvalidPrivateKey(String),
    InvalidSignature(String),
    EncodingError(String),
    DecodingError(String),
}

/// A `CryptoError` without its message text.
pub enum CryptoFault {
    KeypairGenerationError,
    SigningError,
    VerificationError,
    InvalidPublicKey,
    InvalidPrivateKey,
    InvalidSignature,
    EncodingError,
    DecodingError,
}

impl View for CryptoError {
    type V = CryptoFault;

    open spec fn view(&self) -> CryptoFault {
        match *self {
            CryptoError::KeypairGenerationError(_) => CryptoFault::KeypairGenerationError,
            CryptoError::SigningError(_) => CryptoFault::SigningError,
            CryptoError::VerificationError(_) => CryptoFault::VerificationError,
            CryptoError::InvalidPublicKey(_) => CryptoFault::InvalidPublicKey,
            CryptoError::InvalidPrivateKey(_) => CryptoFault::InvalidPrivateKey,
            CryptoError::InvalidSignature(_) => CryptoFault::InvalidSignature,
            CryptoError::EncodingError(_) => CryptoFault::EncodingError,
            CryptoError::DecodingError(_) => CryptoFault::DecodingError,
        }
    }
}

impl CryptoError {
    /// The message a user is shown for this error.
    pub open spec fn message(self) -> Seq<char> {
        match self {
            CryptoError::KeypairGenerationError(m) => "Failed to generate keypair: "@ + m@,
            CryptoError::SigningError(m) => "Failed to sign message: "@ + m@,
            CryptoError::VerificationError(m) => "Failed to verify signature: "@ + m@,
            CryptoError::InvalidPublicKey(m) => "Invalid public key: "@ + m@,
            CryptoError::InvalidPrivateKey(m) => "Invalid private key: "@ + m@,
            CryptoError::InvalidSignature(m) => "Invalid signature: "@ + m@,
            CryptoError::EncodingError(m) => "Encoding error: "@ + m@,
            CryptoError::DecodingError(m) => "Decoding error: "@ + m@,
        }
    }

    /// Writes the message a user is shown for this error.
    pub fn to_string(&self) -> (text: String)
        ensures
            text@ == self.message(),
    {
        match self {
            CryptoError::KeypairGenerationError(m) => String::from_str(
                "Failed to generate keypair: ",
            ).concat(m.as_str()),
            CryptoError::SigningError(m) => String::from_str("Failed to sign message: ").concat(
                m.as_str(),
            ),
            CryptoError::VerificationError(m) => String::from_str(
                "Failed to verify signature: ",
            ).concat(m.as_str()),
            CryptoError::InvalidPublicKey(m) => String::from_str("Invalid public key: ").concat(
                m.as_str(),
            ),
            CryptoError::InvalidPrivateKey(m) => String::from_str("Invalid private key: ").concat(
                m.as_str(),
            ),
            CryptoError::InvalidSignature(m) => String::from_str("Invalid signature: ").concat(
                m.as_str(),
            ),
            CryptoError::EncodingError(m) => String::from_str("Encoding error: ").concat(
                m.as_str(),
            ),
            CryptoError::DecodingError(m) => String::from_str("Decoding error: ").concat(
                m.as_str(),
            ),
        }
    }
}

/// Copies the first 32 bytes of `bytes`.
fn to_array_32(bytes: &[u8]) -> (array: [u8; 32])
    requires
        bytes@.len() == 32,
    ensures
        array@ == bytes@,
{
    let mut array = [0u8;32];
    let mut i: usize = 0;
    while i < 32
        invariant
            i <= 32,
            bytes@.len() == 32,
            forall|j: int| 0 <= j < i ==> array@[j] == bytes@[j],
        decreases 32 - i,
    {
        array[i] = bytes[i];
        i = i + 1;
    }
    assert(array@ =~= bytes@);
    array
}

/// Copies the first 64 bytes of `bytes`.
fn to_array_64(bytes: &[u8]) -> (array: [u8; 64])
    requires
        bytes@.len() == 64,
    ensures
        array@ == bytes@,
{
    let mut array = [0u8;64];
    let mut i: usize = 0;
    while i < 64
        invariant
            i <= 64,
            bytes@.len() == 64,
            forall|j: int| 0 <= j < i ==> array@[j] == bytes@[j],
        decreases 64 - i,
    {
        array[i] = bytes[i];
        i = i + 1;
    }
    assert(array@ =~= bytes@);
    array
}

/// An Ed25519 public key: 32 bytes that encode a curve point.
#[derive(Debug)]
pub struct PublicKey {
    bytes: [u8; 32],
}

impl View for PublicKey {
    type V = Seq<u8>;

    closed spec fn view(&self) -> Seq<u8> {
        self.bytes@
    }
}

impl PublicKey {
    #[verifier::type_invariant]
    spec fn valid(self) -> bool {
        ed25519_key_valid(self.bytes@)
    }

    /// Accepts `bytes` as a public key if they are 32 bytes that encode a
    /// curve point.
    pub fn from_bytes(bytes: &[u8]) -> (key: Option<PublicKey>)
        ensures
            key is Some <==> bytes@.len() == KEY_LENGTH && ed25519_key_valid(bytes@),
            key matches Some(k) ==> k@ == bytes@,
    {
        if bytes.len() != 32 {
            return None;
        }
        let array = to_array_32(bytes);
        if check_public_key(&array) {
            Some(PublicKey { bytes: array })
        } else {
            None
        }
    }

    /// The 32 bytes of the key, which encode a curve point.
    pub fn as_bytes(&self) -> (bytes: &[u8; 32])
        ensures
            bytes@ == self@,
            self@.len() == KEY_LENGTH,
            ed25519_key_valid(self@),
    {
        proof {
            use_type_invariant(self);
        }
        &self.bytes
    }
}

impl Clone for PublicKey {
    fn clone(&self) -> (copy: Self)
        ensures
            copy@ == self@,
    {
        proof {
            use_type_invariant(self);
        }
        PublicKey { bytes: self.bytes }
    }
}

/// A wallet address: the base58 text of a public key. The address "0" stands
/// for the system and is the sender of every coinbase transaction.
#[derive(Debug, PartialEq, Eq, Hash)]
pub struct Address(pub String);

impl View for Address {
    type V = Seq<char>;

    open spec fn view(&self) -> Seq<char> {
        self.0@
    }
}

impl Clone for Address {
    fn clone(&self) -> (copy: Self)
        ensures
            copy == *self,
    {
        Address(self.0.clone())
    }
}

impl Address {
    /// The address of a public key.
    pub fn from_public_key(public_key: &PublicKey) -> (address: Address)
        ensures
            address@ == base58_text(public_key@),
            base58_bytes(address@) == Some(public_key@),
    {
        Address(base58_encode(public_key.as_bytes().as_slice()))
    }

    /// The public key that the address encodes.
    ///
    /// Fails with `DecodingError` if the text is not base58, and with
    /// `InvalidPublicKey` if it decodes to anything but the 32 bytes of a curve
    /// point.
    pub fn to_public_key(&self) -> (key: Result<PublicKey, CryptoError>)
        ensures
            match key {
                Ok(k) => base58_bytes(self@) == Some(k@) && k@.len() == KEY_LENGTH
                    && ed25519_key_valid(k@),
                Err(CryptoError::DecodingError(_)) => base58_bytes(self@) is None,
                Err(CryptoError::InvalidPublicKey(_)) => base58_bytes(self@) matches Some(bytes)
                    && !(bytes.len() == KEY_LENGTH && ed25519_key_valid(bytes)),
                Err(_) => false,
            },
    {
        match base58_decode(self.0.as_str()) {
            Err(error) => Err(CryptoError::DecodingError(decode_error_text(&error))),
            Ok(bytes) => match PublicKey::from_bytes(bytes.as_slice()) {
                Some(key) => Ok(key),
                None => Err(
                    CryptoError::InvalidPublicKey(String::from_str("Invalid public key bytes")),
                ),
            },
        }
    }

    /// Accepts `text` as an address if it is base58.
    pub fn from_str(text: &str) -> (address: Result<Address, CryptoError>)
        ensures
            match address {
                Ok(a) => a@ == text@ && base58_bytes(text@) is Some,
                Err(CryptoError::DecodingError(_)) => base58_bytes(text@) is None,
                Err(_) => false,
            },
    {
        match base58_decode(text) {
            Err(error) => Err(CryptoError::DecodingError(decode_error_text(&error))),
            Ok(_) => Ok(Address(String::from_str(text))),
        }
    }

    /// The address as text.
    pub fn to_string(&self) -> (text: String)
        ensures
            text@ == self@,
    {
        self.0.clone()
    }
}

/// A signature as it travels in a transaction: the base58 text of the 64
/// signature bytes.
#[derive(Debug)]
pub struct DigitalSignature(pub String);

impl View for DigitalSignature {
    type V = Seq<char>;

    open spec fn view(&self) -> Seq<char> {
        self.0@
    }
}

impl Clone for DigitalSignature {
    fn clone(&self) -> (copy: Self)
        ensures
            copy == *self,
    {
        DigitalSignature(self.0.clone())
    }
}

impl DigitalSignature {
    /// The text form of 64 signature bytes.
    pub fn from_signature(signature: &[u8; 64]) -> (text: DigitalSignature)
        ensures
            text@ == base58_text(signature@),
            base58_bytes(text@) == Some(signature@),
    {
        DigitalSignature(base58_encode(signature.as_slice()))
    }

    /// The 64 signature bytes.
    ///
    /// Fails with `DecodingError` if the text is not base58, and with
    /// `InvalidSignature` if it decodes to another length.
    pub fn to_signature(&self) -> (signature: Result<[u8; 64], CryptoError>)
        ensures
            match signature {
                Ok(bytes) => base58_bytes(self@) == Some(bytes@),
                Err(CryptoError::DecodingError(_)) => base58_bytes(self@) is None,
                Err(CryptoError::InvalidSignature(_)) => base58_bytes(self@) matches Some(bytes)
                    && bytes.len() != SIGNATURE_LENGTH,
                Err(_) => false,
            },
    {
        match base58_decode(self.0.as_str()) {
            Err(error) => Err(CryptoError::DecodingError(decode_error_text(&error))),
            Ok(bytes) => {
                if bytes.len() == 64 {
                    Ok(to_array_64(bytes.as_slice()))
                } else {
                    Err(CryptoError::InvalidSignature(String::from_str("Invalid signature length")))
                }
            },
        }
    }
}

/// What a signature check on `message` under `public_key` comes to: an error
/// for a malformed signature text, else whether Ed25519 accepts it.
pub open spec fn signature_outcome(
    message: Seq<u8>,
    signature: Seq<char>,
    public_key: Seq<u8>,
) -> Option<bool> {
    match base58_bytes(signature) {
        Some(bytes) => if bytes.len() == SIGNATURE_LENGTH {
            Some(ed25519_verifies(public_key, message, bytes))
        } else {
            None
        },
        None => None,
    }
}

/// Checks `signature` over `message` under `public_key`.
///
/// A signature that does not match is `Ok(false)`; only a signature text that
/// is not base58 (`DecodingError`) or not 64 bytes long (`InvalidSignature`) is
/// an error.
pub fn verify_signature(
    message: &[u8],
    signature: &DigitalSignature,
    public_key: &PublicKey,
) -> (accepted: Result<bool, CryptoError>)
    ensures
        match accepted {
            Ok(b) => signature_outcome(message@, signature@, public_key@) == Some(b),
            Err(CryptoError::DecodingError(_)) => base58_bytes(signature@) is None,
            Err(CryptoError::InvalidSignature(_)) => base58_bytes(signature@) matches Some(bytes)
                && bytes.len() != SIGNATURE_LENGTH,
            Err(_) => false,
        },
{
    match signature.to_signature() {
        Err(error) => Err(error),
        Ok(bytes) => Ok(verify_message(public_key.as_bytes(), message, &bytes)),
    }
}

/// An Ed25519 key pair with the address of its public key. The secret key is
/// handed out by `export_secret_key` alone; a wallet has no debug output.
pub struct Wallet {
    secret_key: [u8; 32],
    public_key: PublicKey,
    address: Address,
}

impl Wallet {
    #[verifier::type_invariant]
    spec fn consistent(self) -> bool {
        &&& self.public_key@ == ed25519_public_key(self.secret_key@)
        &&& self.address@ == base58_text(self.public_key@)
        &&& base58_bytes(self.address@) == Some(self.public_key@)
    }

    /// The secret key, as a byte string.
    pub closed spec fn secret(&self) -> Seq<u8> {
        self.secret_key@
    }

    /// The public key, as a byte string.
    pub closed spec fn public(&self) -> Seq<u8> {
        self.public_key@
    }

    /// The address, as text.
    pub closed spec fn address_text(&self) -> Seq<char> {
        self.address@
    }

    /// A wallet over a fresh random key.
    pub fn new() -> (wallet: Result<Wallet, CryptoError>)
        ensures
            wallet is Ok,
    {
        let secret = random_secret_key();
        Wallet::from_secret_key(secret.as_slice())
    }

    /// The wallet of a given secret key.
    ///
    /// Fails with `InvalidPrivateKey` unless the key is 32 bytes long.
    pub fn from_secret_key(secret_key_bytes: &[u8]) -> (wallet: Result<Wallet, CryptoError>)
        ensures
            match wallet {
                Ok(w) => secret_key_bytes@.len() == KEY_LENGTH && w.secret() == secret_key_bytes@,
                Err(CryptoError::InvalidPrivateKey(_)) => secret_key_bytes@.len() != KEY_LENGTH,
                Err(_) => false,
            },
    {
        if secret_key_bytes.len() != 32 {
            return Err(
                CryptoError::InvalidPrivateKey(String::from_str("Invalid private key length")),
            );
        }
        let secret_key = to_array_32(secret_key_bytes);
        let public = derive_public_key(&secret_key);
        let public_key = PublicKey { bytes: public };
        let address = Address::from_public_key(&public_key);
        Ok(Wallet { secret_key, public_key, address })
    }

    /// The wallet's address: the base58 text of its public key.
    pub fn address(&self) -> (address: &Address)
        ensures
            address@ == self.address_text(),
            self.address_text() == base58_text(self.public()),
            base58_bytes(self.address_text()) == Some(self.public()),
            self.public().len() == KEY_LENGTH,
            ed25519_key_valid(self.public()),
    {
        proof {
            use_type_invariant(self);
            use_type_invariant(&self.public_key);
        }
        &self.address
    }

    /// The wallet's public key: the one that belongs to its secret key.
    pub fn public_key(&self) -> (key: &PublicKey)
        ensures
            key@ == self.public(),
            self.public() == ed25519_public_key(self.secret()),
    {
        proof {
            use_type_invariant(self);
        }
        &self.public_key
    }

    /// Signs `message` with the wallet's secret key.
    pub fn sign(&self, message: &[u8]) -> (signature: Result<DigitalSignature, CryptoError>)
        ensures
            signature matches Ok(s) && s@ == base58_text(
                ed25519_signature(self.secret(), message@),
            ) && signature_outcome(message@, s@, self.public()) == Some(true),
    {
        proof {
            use_type_invariant(self);
        }
        let bytes = sign_message(&self.secret_key, message);
        Ok(DigitalSignature::from_signature(&bytes))
    }

    /// The secret key, for safekeeping by the owner.
    pub fn export_secret_key(&self) -> (bytes: Vec<u8>)
        ensures
            bytes@ == self.secret(),
    {
        let mut bytes: Vec<u8> = Vec::new();
        let mut i: usize = 0;
        while i < 32
            invariant
                i <= 32,
                bytes@ == self.secret_key@.take(i as int),
            decreases 32 - i,
        {
            bytes.push(self.secret_key[i]);
            assert(self.secret_key@.take(i as int).push(self.secret_key@[i as int])
                =~= self.secret_key@.take(i + 1));
            i = i + 1;
        }
        assert(self.secret_key@.take(32) =~= self.secret_key@);
        bytes
    }
}

impl Clone for Wallet {
    fn clone(&self) -> (copy: Self)
        ensures
            copy.secret() == self.secret(),
            copy.public() == self.public(),
            copy.address_text() == self.address_text(),
    {
        proof {
            use_type_invariant(self);
        }
        Wallet {
            secret_key: self.secret_key,
            public_key: self.public_key.clone(),
            address: self.address.clone(),
        }
    }
}

} // verus!
