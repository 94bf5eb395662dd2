use vstd::prelude::*;
use crate::ports::encryption::{bytes_result, CryptoError, EncryptionPort};

verus! {

/// Use-case: encrypt an in-memory volume (byte slice) with the provided key.
pub struct EncryptVolume<E: EncryptionPort> {
    crypto: E,
}

impl<E: EncryptionPort> EncryptVolume<E> {
    /// The encryption adapter this use-case drives.
    pub closed spec fn port(&self) -> E {
        self.crypto
    }

    pub fn new(crypto: E) -> (r: Self)
        ensures
            r.port() == crypto,
    {
        EncryptVolume { crypto }
    }

    /// Encrypt `data` with `key`. Returns ciphertext on success.
    /// An empty key is refused before the adapter is asked.
    pub fn execute(&self, data: &[u8], key: &[u8]) -> (r: Result<Vec<u8>, CryptoError>)
        ensures
            key@.len() == 0 ==> r == Err::<Vec<u8>, CryptoError>(CryptoError::InvalidKey),
            key@.len() > 0 ==> bytes_result(r) == self.port().encrypt_spec(data@, key@),
    {
        if key.len() == 0 {
            return Err(CryptoError::InvalidKey);
        }
        self.crypto.encrypt(data, key)
    }

    /// Decrypt `data` with `key`. Returns plaintext on success.
    /// An empty key is refused before the adapter is asked.
    pub fn decrypt(&self, data: &[u8], key: &[u8]) -> (r: Result<Vec<u8>, CryptoError>)
        ensures
            key@.len() == 0 ==> r == Err::<Vec<u8>, CryptoError>(CryptoError::InvalidKey),
            key@.len() > 0 ==> bytes_result(r) == self.port().decrypt_spec(data@, key@),
    {
        if key.len() == 0 {
            return Err(CryptoError::InvalidKey);
        }
        self.crypto.decrypt(data, key)
    }

    pub fn crypto(&self) -> (r: &E)
        ensures
            *r == self.port(),
    {
        &self.crypto
    }
}

} // verus!
