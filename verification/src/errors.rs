//! The failure taxonomy of the library.
//!
//! Every fallible operation reports one of these variants. They are all
//! terminal: nothing here is transient, so callers never retry. The one
//! outcome that is deliberately *not* an error is a signature that fails
//! verification; see [`crate::signing::SignatureCheck`].

use vstd::prelude::*;

verus! {

/// What went wrong, as the invoking layer should report it.
#[derive(Clone, Copy, Debug, PartialEq, Eq, Structural)]
pub enum CryptoError {
    /// Text that should have been hex digits was not valid hex.
    InvalidHexEncoding,
    /// Key material decoded cleanly but had the wrong byte length.
    InvalidKeyLength,
    /// A key file existed but did not hold a valid key of the expected
    /// length.
    KeyFileCorrupt,
    /// A fresh keypair could not be generated and persisted; no partial
    /// key material may be treated as usable.
    KeyGenerationFailed,
    /// A decoded envelope was shorter than a nonce plus an authentication
    /// tag.
    EnvelopeTooShort,
    /// The encryption primitive rejected the supplied public key.
    EncryptionFailed,
    /// Authentication failed while opening a ciphertext; nothing of the
    /// plaintext is returned.
    DecryptionFailed,
    /// The signing primitive rejected the supplied key material.
    SigningFailed,
    /// A read, write or directory creation failed outside this crate.
    IOFailure,
}

impl CryptoError {
    /// A short human-readable description, for the invoking layer's
    /// messages.
    pub fn describe(&self) -> &'static str {
        match self {
            CryptoError::InvalidHexEncoding => "invalid hex encoding",
            CryptoError::InvalidKeyLength => "key has the wrong length",
            CryptoError::KeyFileCorrupt => "key file is corrupt",
            CryptoError::KeyGenerationFailed => "key generation failed",
            CryptoError::EnvelopeTooShort => "envelope too short to hold a nonce and a tag",
            CryptoError::EncryptionFailed => "encryption failed",
            CryptoError::DecryptionFailed => "decryption failed: authentication did not pass",
            CryptoError::SigningFailed => "signing failed",
            CryptoError::IOFailure => "input/output failure",
        }
    }
}

} // verus!
