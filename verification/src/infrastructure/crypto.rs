use vstd::prelude::*;
use crate::ports::encryption::{bytes_result, CryptoError, EncryptionPort};

verus! {

/// Repeating-key XOR of `data` with `key`.
pub open spec fn xor_spec(data: Seq<u8>, key: Seq<u8>) -> Seq<u8> {
    Seq::new(data.len(), |i: int| data[i] ^ key[i % (key.len() as int)])
}

/// Demo cipher: repeating-key XOR.
/// NOT cryptographically secure — used solely to demonstrate the adapter pattern.
pub struct XorCryptoAdapter;

impl XorCryptoAdapter {
    pub fn new() -> (r: Self) {
        XorCryptoAdapter
    }

    fn xor_with_key(data: &[u8], key: &[u8]) -> (r: Vec<u8>)
        requires
            key@.len() > 0 || data@.len() == 0,
        ensures
            r@ == xor_spec(data@, key@),
    {
        let mut out: Vec<u8> = Vec::new();
        let mut i: usize = 0;
        while i < data.len()
            invariant
                i <= data@.len(),
                key@.len() > 0 || data@.len() == 0,
                out@ =~= xor_spec(data@, key@).take(i as int),
            decreases data@.len() - i,
        {
            let b = data[i] ^ key[i % key.len()];
            out.push(b);
            i = i + 1;
        }
        assert(xor_spec(data@, key@).take(data@.len() as int) =~= xor_spec(data@, key@));
        out
    }
}

impl Default for XorCryptoAdapter {
    fn default() -> (r: Self) {
        Self::new()
    }
}

impl EncryptionPort for XorCryptoAdapter {
    open spec fn encrypt_spec(&self, data: Seq<u8>, key: Seq<u8>) -> Result<Seq<u8>, CryptoError> {
        if key.len() == 0 {
            Err(CryptoError::InvalidKey)
        } else {
            Ok(xor_spec(data, key))
        }
    }

    open spec fn decrypt_spec(&self, data: Seq<u8>, key: Seq<u8>) -> Result<Seq<u8>, CryptoError> {
        if key.len() == 0 {
            Err(CryptoError::InvalidKey)
        } else {
            Ok(xor_spec(data, key))
        }
    }

    fn encrypt(&self, data: &[u8], key: &[u8]) -> (r: Result<Vec<u8>, CryptoError>) {
        if key.len() == 0 {
            return Err(CryptoError::InvalidKey);
        }
        Ok(Self::xor_with_key(data, key))
    }

    fn decrypt(&self, data: &[u8], key: &[u8]) -> (r: Result<Vec<u8>, CryptoError>) {
        if key.len() == 0 {
            return Err(CryptoError::InvalidKey);
        }
        // XOR is its own inverse.
        Ok(Self::xor_with_key(data, key))
    }
}

/// XOR with the same key twice gives the data back: decrypting what was
/// encrypted under a non-empty key returns the plaintext.
pub proof fn law_xor_round_trip(c: XorCryptoAdapter, data: Seq<u8>, key: Seq<u8>)
    requires
        key.len() > 0,
    ensures
        c.encrypt_spec(data, key) == Ok::<Seq<u8>, CryptoError>(xor_spec(data, key)),
        c.decrypt_spec(xor_spec(data, key), key) == Ok::<Seq<u8>, CryptoError>(data),
{
    let once = xor_spec(data, key);
    let twice = xor_spec(once, key);
    assert forall|i: int| 0 <= i < data.len() implies twice[i] == data[i] by {
        let a = data[i];
        let b = key[i % (key.len() as int)];
        assert((a ^ b) ^ b == a) by (bit_vector);
    }
    assert(twice =~= data);
}

} // verus!
