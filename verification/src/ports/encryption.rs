use vstd::prelude::*;

verus! {

/// Errors returned by cryptographic operations.
#[derive(Debug, Clone, Copy, PartialEq, Eq, Structural)]
pub enum CryptoError {
    InvalidKey,
    DecryptionFailed,
    EncryptionFailed,
}

impl CryptoError {
    /// The variant's name, as `{:?}` prints it.
    pub open spec fn spec_debug_name(self) -> Seq<char> {
        match self {
            CryptoError::InvalidKey => "InvalidKey"@,
            CryptoError::DecryptionFailed => "DecryptionFailed"@,
            CryptoError::EncryptionFailed => "EncryptionFailed"@,
        }
    }

    /// The variant's name, as `{:?}` prints it.
    pub fn debug_name(&self) -> (s: &'static str)
        ensures
            s@ == self.spec_debug_name(),
    {
        match self {
            CryptoError::InvalidKey => "InvalidKey",
            CryptoError::DecryptionFailed => "DecryptionFailed",
            CryptoError::EncryptionFailed => "EncryptionFailed",
        }
    }
}

/// The bytes of a cryptographic result, as a sequence.
pub open spec fn bytes_result(r: Result<Vec<u8>, CryptoError>) -> Result<Seq<u8>, CryptoError> {
    match r {
        Ok(v) => Ok(v@),
        Err(e) => Err(e),
    }
}

/// Port (trait) that abstracts symmetric encryption and decryption.
pub trait EncryptionPort: Sized {
    /// What `encrypt(data, key)` returns.
    spec fn encrypt_spec(&self, data: Seq<u8>, key: Seq<u8>) -> Result<Seq<u8>, CryptoError>;

    /// What `decrypt(data, key)` returns.
    spec fn decrypt_spec(&self, data: Seq<u8>, key: Seq<u8>) -> Result<Seq<u8>, CryptoError>;

    /// Encrypt `data` with `key` and return the ciphertext.
    fn encrypt(&self, data: &[u8], key: &[u8]) -> (r: Result<Vec<u8>, CryptoError>)
        ensures
            bytes_result(r) == self.encrypt_spec(data@, key@),
    ;

    /// Decrypt `data` with `key` and return the plaintext.
    fn decrypt(&self, data: &[u8], key: &[u8]) -> (r: Result<Vec<u8>, CryptoError>)
        ensures
            bytes_result(r) == self.decrypt_spec(data@, key@),
    ;
}

} // verus!
