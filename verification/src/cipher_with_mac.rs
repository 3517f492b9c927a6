//! Building an authenticated cipher from a MAC and an unauthenticated
//! cipher.
//!
//! The composition is encrypt-then-MAC: sealing encrypts the message and
//! then computes the MAC over the ciphertext alone; opening recomputes that
//! MAC and compares it in constant time against the received one before any
//! decryption is attempted. The MAC is keyed with the same key as the
//! cipher — the fixed key discipline of this composition.

use vstd::prelude::*;

use crate::traits::{Cipher, CipherOutput, constant_time_eq};

verus! {

/// Symmetric cipher without authentication: encryption and decryption only,
/// with decryption inverting encryption under the same nonce and key.
pub trait UnauthenticatedCipher {
    /// Byte length of a key.
    spec fn spec_key_len(&self) -> usize;

    /// Byte length of a nonce.
    spec fn spec_nonce_len(&self) -> usize;

    /// The ciphertext of `message` under `nonce` and `key`.
    spec fn spec_encrypt(&self, message: Seq<u8>, nonce: Seq<u8>, key: Seq<u8>) -> Seq<u8>;

    /// The plaintext of `ciphertext` under `nonce` and `key`.
    spec fn spec_decrypt(&self, ciphertext: Seq<u8>, nonce: Seq<u8>, key: Seq<u8>) -> Seq<u8>;

    /// Byte length of a key.
    fn key_len(&self) -> (r: usize)
        ensures
            r == self.spec_key_len(),
    ;

    /// Byte length of a nonce.
    fn nonce_len(&self) -> (r: usize)
        ensures
            r == self.spec_nonce_len(),
    ;

    /// Encrypts `message`. Decryption inverts encryption: the plaintext of
    /// the returned ciphertext, under the same nonce and key, is the
    /// message itself.
    fn encrypt(&self, message: &[u8], nonce: &[u8], key: &[u8]) -> (r: Vec<u8>)
        requires
            nonce@.len() == self.spec_nonce_len(),
            key@.len() == self.spec_key_len(),
        ensures
            r@ == self.spec_encrypt(message@, nonce@, key@),
            r@.len() == message@.len(),
            self.spec_decrypt(r@, nonce@, key@) == message@,
    ;

    /// Decrypts `ciphertext`.
    fn decrypt(&self, ciphertext: &[u8], nonce: &[u8], key: &[u8]) -> (r: Vec<u8>)
        requires
            nonce@.len() == self.spec_nonce_len(),
            key@.len() == self.spec_key_len(),
        ensures
            r@ == self.spec_decrypt(ciphertext@, nonce@, key@),
            r@.len() == ciphertext@.len(),
    ;
}

/// Message authentication code: a keyed digest of arbitrary-length data.
pub trait Mac {
    /// Byte length of the digest.
    spec fn spec_mac_len(&self) -> usize;

    /// The digest of `data` under `key`; a function of the two alone.
    spec fn spec_digest(&self, data: Seq<u8>, key: Seq<u8>) -> Seq<u8>;

    /// Byte length of the digest.
    fn mac_len(&self) -> (r: usize)
        ensures
            r == self.spec_mac_len(),
    ;

    /// Computes the digest of `data` under `key`. Keys of any length are
    /// accepted.
    fn digest(&self, data: &[u8], key: &[u8]) -> (r: Vec<u8>)
        ensures
            r@ == self.spec_digest(data@, key@),
            r@.len() == self.spec_mac_len(),
    ;
}

/// An authenticated cipher composed from an unauthenticated cipher and a
/// MAC by encrypt-then-MAC, sharing one key between the two.
pub struct CipherWithMac<C, M> {
    /// The unauthenticated cipher.
    pub cipher: C,
    /// The MAC primitive.
    pub mac: M,
}

impl<C: UnauthenticatedCipher, M: Mac> Cipher for CipherWithMac<C, M> {
    open spec fn spec_key_len(&self) -> usize {
        self.cipher.spec_key_len()
    }

    open spec fn spec_nonce_len(&self) -> usize {
        self.cipher.spec_nonce_len()
    }

    open spec fn spec_mac_len(&self) -> usize {
        self.mac.spec_mac_len()
    }

    open spec fn spec_ciphertext(&self, message: Seq<u8>, nonce: Seq<u8>, key: Seq<u8>) -> Seq<
        u8,
    > {
        self.cipher.spec_encrypt(message, nonce, key)
    }

    open spec fn spec_plaintext(&self, ciphertext: Seq<u8>, nonce: Seq<u8>, key: Seq<u8>) -> Seq<
        u8,
    > {
        self.cipher.spec_decrypt(ciphertext, nonce, key)
    }

    open spec fn spec_mac(&self, ciphertext: Seq<u8>, nonce: Seq<u8>, key: Seq<u8>) -> Seq<u8> {
        self.mac.spec_digest(ciphertext, key)
    }

    fn key_len(&self) -> usize {
        self.cipher.key_len()
    }

    fn nonce_len(&self) -> usize {
        self.cipher.nonce_len()
    }

    fn mac_len(&self) -> usize {
        self.mac.mac_len()
    }

    fn seal(&self, message: &[u8], nonce: &[u8], key: &[u8]) -> CipherOutput {
        let ciphertext = self.cipher.encrypt(message, nonce, key);
        let tag = self.mac.digest(ciphertext.as_slice(), key);
        CipherOutput { ciphertext, mac: tag }
    }

    fn open(&self, output: &mut Vec<u8>, encrypted: &CipherOutput, nonce: &[u8], key: &[u8])
        -> Result<(), ()> {
        let expected = self.mac.digest(encrypted.ciphertext.as_slice(), key);
        if !constant_time_eq(expected.as_slice(), encrypted.mac.as_slice()) {
            return Err(());
        }
        let plaintext = self.cipher.decrypt(encrypted.ciphertext.as_slice(), nonce, key);
        let n = plaintext.len();
        let mut i: usize = 0;
        while i < n
            invariant
                i <= n,
                n == plaintext@.len(),
                output@.len() == n,
                forall|j: int| 0 <= j < i ==> output@[j] == plaintext@[j],
            decreases n - i,
        {
            output.set(i, plaintext[i]);
            i = i + 1;
        }
        assert(output@ =~= plaintext@);
        Ok(())
    }
}

} // verus!
