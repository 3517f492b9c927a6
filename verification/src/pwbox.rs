//! The sealed container: seal and open, generic over the capability traits.

use vstd::prelude::*;

use crate::Error;
use crate::rng::fill_random;
use crate::secure::{SensitiveData, sensitive_bytes, wipe, zeroed_vec};
use crate::traits::{Cipher, CipherOutput, DeriveKey, KdfError};

verus! {

/// A sealed container: the stored salt, nonce and authenticated output,
/// together with the KDF and cipher handles that produced them.
///
/// The same seal/open logic serves both compile-time algorithm choices
/// ([`PwBox`]) and algorithms chosen at run time from a record
/// ([`crate::RestoredPwBox`]): it is written once over the capability
/// traits.
pub struct PwBoxInner<K, C> {
    /// Salt fed to the KDF; not secret.
    pub salt: Vec<u8>,
    /// Nonce fed to the cipher; not secret.
    pub nonce: Vec<u8>,
    /// Ciphertext and MAC.
    pub encrypted: CipherOutput,
    /// Key-derivation handle.
    pub kdf: K,
    /// Cipher handle.
    pub cipher: C,
}

impl<K: DeriveKey, C: Cipher> PwBoxInner<K, C> {
    /// The container's structural invariant: stored lengths match what its
    /// own algorithms expect.
    pub open spec fn wf(&self) -> bool {
        &&& self.salt@.len() == self.kdf.spec_salt_len()
        &&& self.nonce@.len() == self.cipher.spec_nonce_len()
        &&& self.encrypted.mac@.len() == self.cipher.spec_mac_len()
    }

    /// The key that `password` derives for this container's salt and cipher.
    pub open spec fn spec_key_of(&self, password: Seq<u8>) -> Seq<u8> {
        self.kdf.spec_key(self.cipher.spec_key_len() as nat, password, self.salt@)
    }

    /// Whether MAC verification accepts `password`: the stored MAC is the MAC
    /// of the stored ciphertext under the key that `password` derives.
    pub open spec fn spec_opens(&self, password: Seq<u8>) -> bool {
        self.encrypted.mac@ == self.cipher.spec_mac(
            self.encrypted.ciphertext@,
            self.nonce@,
            self.spec_key_of(password),
        )
    }

    /// The plaintext that opening with `password` would produce.
    pub open spec fn spec_content(&self, password: Seq<u8>) -> Seq<u8> {
        self.cipher.spec_plaintext(
            self.encrypted.ciphertext@,
            self.nonce@,
            self.spec_key_of(password),
        )
    }

    /// Seals `message` under `password`: draws a fresh salt and nonce from
    /// the system's secure random source, derives a key, encrypts and
    /// authenticates. The returned container opens under the sealing
    /// password and its content under that password is exactly `message`.
    pub fn seal(kdf: K, cipher: C, password: &[u8], message: &[u8]) -> (r: Result<Self, KdfError>)
        ensures
            r matches Ok(b) ==> b.wf() && b.kdf == kdf && b.cipher == cipher
                && b.encrypted.ciphertext@.len() == message@.len() && b.spec_opens(password@)
                && b.spec_content(password@) == message@ && b.encrypted.ciphertext@
                == b.cipher.spec_ciphertext(message@, b.nonce@, b.spec_key_of(password@))
                && b.kdf.spec_succeeds(password@, b.salt@),
            kdf.spec_infallible() ==> r is Ok,
    {
        let mut salt = zeroed_vec(kdf.salt_len());
        fill_random(&mut salt);
        let mut nonce = zeroed_vec(cipher.nonce_len());
        fill_random(&mut nonce);
        let mut key = zeroed_vec(cipher.key_len());
        let derived = kdf.derive_key(&mut key, password, salt.as_slice());
        match derived {
            Err(e) => {
                wipe(&mut key);
                Err(e)
            },
            Ok(()) => {
                let encrypted = cipher.seal(message, nonce.as_slice(), key.as_slice());
                wipe(&mut key);
                Ok(PwBoxInner { salt, nonce, encrypted, kdf, cipher })
            },
        }
    }

    /// The length of the stored ciphertext, which equals the length of the
    /// original message: sealing adds no padding.
    pub fn len(&self) -> (r: usize)
        ensures
            r == self.encrypted.ciphertext@.len(),
    {
        self.encrypted.ciphertext.len()
    }

    /// Opens the container into a caller-provided buffer. A buffer whose
    /// length differs from [`Self::len`] is a caller bug, ruled out by
    /// precondition rather than reported as an error.
    pub fn open_into(&self, output: &mut Vec<u8>, password: &[u8]) -> (r: Result<(), Error>)
        requires
            self.wf(),
            old(output)@.len() == self.encrypted.ciphertext@.len(),
        ensures
            final(output)@.len() == old(output)@.len(),
            r is Ok <==> (self.kdf.spec_succeeds(password@, self.salt@) && self.spec_opens(
                password@,
            )),
            r is Ok ==> final(output)@ == self.spec_content(password@),
            r is Err ==> final(output)@ == old(output)@,
            r == Err::<(), Error>(Error::MacMismatch) <==> (self.kdf.spec_succeeds(
                password@,
                self.salt@,
            ) && !self.spec_opens(password@)),
            r matches Err(e) ==> ((e matches Error::DeriveKey(_)) <==> !self.kdf.spec_succeeds(
                password@,
                self.salt@,
            )),
            self.kdf.spec_infallible() ==> (r is Ok <==> self.spec_opens(password@)),
    {
        let mut key = zeroed_vec(self.cipher.key_len());
        let derived = self.kdf.derive_key(&mut key, password, self.salt.as_slice());
        match derived {
            Err(e) => {
                wipe(&mut key);
                Err(Error::DeriveKey(e))
            },
            Ok(()) => {
                let opened = self.cipher.open(output, &self.encrypted, self.nonce.as_slice(),
                    key.as_slice());
                wipe(&mut key);
                match opened {
                    Ok(()) => Ok(()),
                    Err(()) => Err(Error::MacMismatch),
                }
            },
        }
    }

    /// Opens the container and returns the plaintext in a buffer that is
    /// zeroed when dropped.
    pub fn open(&self, password: &[u8]) -> (r: Result<SensitiveData, Error>)
        requires
            self.wf(),
        ensures
            r is Ok <==> (self.kdf.spec_succeeds(password@, self.salt@) && self.spec_opens(
                password@,
            )),
            r matches Ok(s) ==> sensitive_bytes(&s) == self.spec_content(password@)
                && sensitive_bytes(&s).len() == self.encrypted.ciphertext@.len(),
            (r matches Err(e) && e == Error::MacMismatch) <==> (self.kdf.spec_succeeds(
                password@,
                self.salt@,
            ) && !self.spec_opens(password@)),
            r matches Err(e) ==> ((e matches Error::DeriveKey(_)) <==> !self.kdf.spec_succeeds(
                password@,
                self.salt@,
            )),
            self.kdf.spec_infallible() ==> (r is Ok <==> self.spec_opens(password@)),
    {
        let mut output = zeroed_vec(self.len());
        match self.open_into(&mut output, password) {
            Ok(()) => Ok(SensitiveData::from_vec(output)),
            Err(e) => Err(e),
        }
    }
}

/// Containers that store the same bytes and whose algorithms compute the
/// same functions open alike: for every password, one accepts it exactly
/// when the other does, and they produce the same plaintext. In particular
/// a container rebuilt from a record opens exactly like the container the
/// record was written from, as long as the registry restored algorithms
/// that behave as the originals do.
pub proof fn lemma_restore_preserves_opening<K1: DeriveKey, C1: Cipher, K2: DeriveKey, C2: Cipher>(
    a: PwBoxInner<K1, C1>,
    b: PwBoxInner<K2, C2>,
    password: Seq<u8>,
)
    requires
        b.salt@ == a.salt@,
        b.nonce@ == a.nonce@,
        b.encrypted.ciphertext@ == a.encrypted.ciphertext@,
        b.encrypted.mac@ == a.encrypted.mac@,
        b.cipher.spec_key_len() == a.cipher.spec_key_len(),
        forall|key_len: nat, pw: Seq<u8>, s: Seq<u8>|
            #[trigger] b.kdf.spec_key(key_len, pw, s) == a.kdf.spec_key(key_len, pw, s),
        forall|ct: Seq<u8>, n: Seq<u8>, k: Seq<u8>|
            #[trigger] b.cipher.spec_mac(ct, n, k) == a.cipher.spec_mac(ct, n, k),
        forall|ct: Seq<u8>, n: Seq<u8>, k: Seq<u8>|
            #[trigger] b.cipher.spec_plaintext(ct, n, k) == a.cipher.spec_plaintext(ct, n, k),
    ensures
        b.spec_opens(password) == a.spec_opens(password),
        b.spec_content(password) == a.spec_content(password),
{
    assert(b.spec_key_of(password) == a.spec_key_of(password));
}

/// Password-encrypted data with compile-time algorithm choices.
pub struct PwBox<K, C> {
    /// The generic sealed container.
    pub inner: PwBoxInner<K, C>,
}

impl<K: DeriveKey, C: Cipher> PwBox<K, C> {
    /// Seals `message` under `password` with the given KDF and cipher.
    pub fn new(kdf: K, cipher: C, password: &[u8], message: &[u8]) -> (r: Result<
        Self,
        KdfError,
    >)
        ensures
            r matches Ok(b) ==> b.inner.wf() && b.inner.kdf == kdf && b.inner.cipher == cipher
                && b.inner.encrypted.ciphertext@.len() == message@.len()
                && b.inner.spec_opens(password@) && b.inner.spec_content(password@) == message@
                && b.inner.encrypted.ciphertext@ == b.inner.cipher.spec_ciphertext(
                message@,
                b.inner.nonce@,
                b.inner.spec_key_of(password@),
            ) && b.inner.kdf.spec_succeeds(password@, b.inner.salt@),
            kdf.spec_infallible() ==> r is Ok,
    {
        match PwBoxInner::seal(kdf, cipher, password, message) {
            Ok(inner) => Ok(PwBox { inner }),
            Err(e) => Err(e),
        }
    }

    /// The length of the encrypted data, equal to the original message's.
    pub fn len(&self) -> (r: usize)
        ensures
            r == self.inner.encrypted.ciphertext@.len(),
    {
        self.inner.len()
    }

    /// Opens the box into a caller-provided buffer; see
    /// [`PwBoxInner::open_into`].
    pub fn open_into(&self, output: &mut Vec<u8>, password: &[u8]) -> (r: Result<(), Error>)
        requires
            self.inner.wf(),
            old(output)@.len() == self.inner.encrypted.ciphertext@.len(),
        ensures
            final(output)@.len() == old(output)@.len(),
            r is Ok <==> (self.inner.kdf.spec_succeeds(password@, self.inner.salt@)
                && self.inner.spec_opens(password@)),
            r is Ok ==> final(output)@ == self.inner.spec_content(password@),
            r is Err ==> final(output)@ == old(output)@,
            r == Err::<(), Error>(Error::MacMismatch) <==> (self.inner.kdf.spec_succeeds(
                password@,
                self.inner.salt@,
            ) && !self.inner.spec_opens(password@)),
            r matches Err(e) ==> ((e matches Error::DeriveKey(_))
                <==> !self.inner.kdf.spec_succeeds(password@, self.inner.salt@)),
            self.inner.kdf.spec_infallible() ==> (r is Ok <==> self.inner.spec_opens(password@)),
    {
        self.inner.open_into(output, password)
    }

    /// Opens the box and returns its contents in a buffer that is zeroed on
    /// drop.
    pub fn open(&self, password: &[u8]) -> (r: Result<SensitiveData, Error>)
        requires
            self.inner.wf(),
        ensures
            r is Ok <==> (self.inner.kdf.spec_succeeds(password@, self.inner.salt@)
                && self.inner.spec_opens(password@)),
            r matches Ok(s) ==> sensitive_bytes(&s) == self.inner.spec_content(password@),
            (r matches Err(e) && e == Error::MacMismatch) <==> (self.inner.kdf.spec_succeeds(
                password@,
                self.inner.salt@,
            ) && !self.inner.spec_opens(password@)),
            r matches Err(e) ==> ((e matches Error::DeriveKey(_))
                <==> !self.inner.kdf.spec_succeeds(password@, self.inner.salt@)),
            self.inner.kdf.spec_infallible() ==> (r is Ok <==> self.inner.spec_opens(password@)),
    {
        self.inner.open(password)
    }
}

/// Builder for [`PwBox`]es: fixes the cipher and a default KDF, and lets the
/// caller supply a KDF with custom difficulty parameters before sealing.
pub struct PwBoxBuilder<K, C> {
    /// The KDF that `seal` will use.
    pub kdf: K,
    /// The cipher that `seal` will use.
    pub cipher: C,
}

impl<K: DeriveKey, C: Cipher> PwBoxBuilder<K, C> {
    /// Starts a builder from a cipher and a default KDF.
    pub fn new(kdf: K, cipher: C) -> (r: Self)
        ensures
            r.kdf == kdf,
            r.cipher == cipher,
    {
        PwBoxBuilder { kdf, cipher }
    }

    /// Replaces the KDF, for custom difficulty parameters.
    pub fn kdf(self, kdf: K) -> (r: Self)
        ensures
            r.kdf == kdf,
            r.cipher == self.cipher,
    {
        PwBoxBuilder { kdf, cipher: self.cipher }
    }

    /// Seals `data` under `password` with the chosen KDF and cipher.
    pub fn seal(self, password: &[u8], data: &[u8]) -> (r: Result<PwBox<K, C>, KdfError>)
        ensures
            r matches Ok(b) ==> b.inner.wf() && b.inner.kdf == self.kdf && b.inner.cipher
                == self.cipher && b.inner.encrypted.ciphertext@.len() == data@.len()
                && b.inner.spec_opens(password@) && b.inner.spec_content(password@) == data@
                && b.inner.encrypted.ciphertext@ == b.inner.cipher.spec_ciphertext(
                data@,
                b.inner.nonce@,
                b.inner.spec_key_of(password@),
            ) && b.inner.kdf.spec_succeeds(password@, b.inner.salt@),
            self.kdf.spec_infallible() ==> r is Ok,
    {
        PwBox::new(self.kdf, self.cipher, password, data)
    }
}

} // verus!


