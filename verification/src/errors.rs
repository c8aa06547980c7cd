//! Error taxonomy of the cryptographic core.

use vstd::prelude::*;

verus! {

/// Failures of the cryptographic operations, propagated as distinct cases.
#[derive(Debug, Clone, Copy, PartialEq, Eq, Structural)]
pub enum CryptoError {
    InvalidChatCode,
    KeyDerivationFailed,
    EncryptionFailed,
    DecryptionFailed,
    SigningFailed,
    VerificationFailed,
    InvalidSignature,
}

impl CryptoError {
    /// A human-readable description of the failure.
    pub fn message(&self) -> (r: &'static str)
        ensures
            r@ == self.spec_message(),
    {
        match self {
            CryptoError::InvalidChatCode => "Invalid chat code",
            CryptoError::KeyDerivationFailed => "Key derivation failed",
            CryptoError::EncryptionFailed => "Encryption failed",
            CryptoError::DecryptionFailed => "Decryption failed",
            CryptoError::SigningFailed => "Message signing failed",
            CryptoError::VerificationFailed => "Signature verification failed",
            CryptoError::InvalidSignature => "Invalid message signature",
        }
    }

    pub open spec fn spec_message(self) -> Seq<char> {
        match self {
            CryptoError::InvalidChatCode => "Invalid chat code"@,
            CryptoError::KeyDerivationFailed => "Key derivation failed"@,
            CryptoError::EncryptionFailed => "Encryption failed"@,
            CryptoError::DecryptionFailed => "Decryption failed"@,
            CryptoError::SigningFailed => "Message signing failed"@,
            CryptoError::VerificationFailed => "Signature verification failed"@,
            CryptoError::InvalidSignature => "Invalid message signature"@,
        }
    }
}

} // verus!
