//! Password-based encryption containers.
//!
//! A [`PwBox`] protects an opaque message under a password: a pluggable
//! key-derivation function ([`DeriveKey`]) turns the password and a random
//! salt into a symmetric key, and a pluggable authenticated [`Cipher`] seals
//! the message under that key and a random nonce. The [`Eraser`] registry
//! converts a strongly typed box into a self-describing record
//! ([`ErasedPwBox`]) and back into a dynamically typed [`RestoredPwBox`], so
//! that a box can be stored and later opened without knowing its algorithms
//! at compile time.

use vstd::prelude::*;

mod cipher_with_mac;
mod erased;
mod pwbox;
mod rng;
mod secure;
mod simple;
mod traits;

pub use cipher_with_mac::{CipherWithMac, Mac, UnauthenticatedCipher};
pub use erased::{CipherEntry, CipherFactory, CipherList, ErasableCipher, ErasableKdf, Eraser,
    ErasedPwBox, KdfEntry, KdfFactory, KdfList, KdfParams, RestoredCipher, RestoredKdf,
    RestoredPwBox, Suite, cipher_entries,
    cipher_lookup, cipher_lookup_by_id, kdf_entries, kdf_lookup, kdf_lookup_by_id, params_view,
    suite_builder};
pub use pwbox::{PwBox, PwBoxBuilder, PwBoxInner, lemma_restore_preserves_opening};
pub use secure::{SensitiveData, sensitive_bytes, wipe, zero_bytes, zeroed_vec};
pub use simple::{SimpleCipher, SimpleCipherFactory, SimpleKdf, SimpleKdfFactory, SimpleMac,
    SimpleStreamCipher, SimpleSuite, byte_xor, lemma_seal_open_round_trip,
    lemma_stream_cancel, lemma_tampered_ciphertext_rejected, lemma_tampered_mac_rejected, lemma_wrong_password_rejected,
    simple_digest_byte, simple_key_byte, simple_mac_byte, stream_byte};
pub use traits::{Cipher, CipherOutput, DeriveKey, KdfError, constant_time_eq};

verus! {

/// Errors reported by sealed-container operations.
#[derive(Debug)]
pub enum Error {
    /// A cipher with the given name is not registered.
    NoCipher(String),
    /// A key-derivation function with the given name is not registered.
    NoKdf(String),
    /// The KDF parameters of a record could not be parsed.
    KdfParams(String),
    /// The stored nonce length does not match the cipher's nonce length.
    NonceLen,
    /// The stored MAC length does not match the cipher's MAC length.
    MacLen,
    /// The stored salt length does not match the KDF's salt length.
    SaltLen,
    /// MAC verification failed: wrong password or corrupted box.
    MacMismatch,
    /// The key-derivation backend itself failed.
    DeriveKey(KdfError),
}

impl Error {
    /// A short, fixed description of the error kind.
    pub fn kind_description(&self) -> (r: &'static str)
        ensures
            self matches Error::NoCipher(_) ==> r@ == "unknown cipher"@,
            self matches Error::NoKdf(_) ==> r@ == "unknown KDF"@,
            self matches Error::KdfParams(_) ==> r@ == "failed to parse KDF parameters"@,
            self matches Error::NonceLen ==> r@ == "incorrect nonce length"@,
            self matches Error::MacLen ==> r@ == "incorrect MAC length"@,
            self matches Error::SaltLen ==> r@ == "incorrect salt length"@,
            self matches Error::MacMismatch ==> r@ == "incorrect password or corrupted box"@,
            self matches Error::DeriveKey(_) ==> r@ == "error during key derivation"@,
    {
        match self {
            Error::NoCipher(_) => "unknown cipher",
            Error::NoKdf(_) => "unknown KDF",
            Error::KdfParams(_) => "failed to parse KDF parameters",
            Error::NonceLen => "incorrect nonce length",
            Error::MacLen => "incorrect MAC length",
            Error::SaltLen => "incorrect salt length",
            Error::MacMismatch => "incorrect password or corrupted box",
            Error::DeriveKey(_) => "error during key derivation",
        }
    }
}

} // verus!
